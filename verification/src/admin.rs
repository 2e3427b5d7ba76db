//! Administrative operations: initialize, mint, burn, settings, admin
//! transfer.
//!
//! Every operation demands that the caller-designated admin identity is both
//! the recorded admin and a signer of the call. Each handler takes the state
//! buffer by exclusive reference, validates before it writes, and reports
//! the exact outside call it owes as a [`LedgerAction`].

use crate::account::LedgerAction;
use crate::error::E9thTokenError;
use crate::identity::Identity;
use crate::state::{
    lemma_program_state_len, sat_add_u64, sat_sub_u64, serialize_account_data, AccountRecord,
    ProgramState,
};
use vstd::prelude::*;

verus! {

/// What `process_initialize` returns and leaves in the state buffer.
pub open spec fn spec_initialize(
    program_id: Identity,
    state_key: Identity,
    state_is_writable: bool,
    state: Seq<u8>,
    admin_key: Identity,
    admin_is_signer: bool,
    mint_key: Identity,
    total_supply: u64,
    reward_rate: u16,
    min_stake_period: u64,
    max_stake_period: u64,
) -> (Result<LedgerAction, E9thTokenError>, Seq<u8>) {
    if !state_is_writable {
        (Err(E9thTokenError::InvalidAccountData), state)
    } else if !admin_is_signer {
        (Err(E9thTokenError::Unauthorized), state)
    } else if state.len() != 0 {
        (Err(E9thTokenError::AccountAlreadyInitialized), state)
    } else {
        let st = ProgramState {
            admin: admin_key,
            mint: mint_key,
            total_supply,
            staking_enabled: true,
            reward_rate,
            min_stake_period,
            max_stake_period,
            total_staked: 0,
            bump: 0,
        };
        (
            Ok(
                LedgerAction::CreateStateAccount {
                    funder: admin_key,
                    address: state_key,
                    owner: program_id,
                    space: 100,
                },
            ),
            st.encoding(),
        )
    }
}

/// What `process_mint` returns and leaves in the state buffer.
pub open spec fn spec_mint(
    state: Seq<u8>,
    admin_key: Identity,
    admin_is_signer: bool,
    token_program_key: Identity,
    mint_key: Identity,
    destination_key: Identity,
    amount: u64,
) -> (Result<LedgerAction, E9thTokenError>, Seq<u8>) {
    match ProgramState::decoding(state) {
        None => (Err(E9thTokenError::InvalidAccountData), state),
        Some(st) => {
            if st.admin != admin_key {
                (Err(E9thTokenError::InvalidAdmin), state)
            } else if !admin_is_signer {
                (Err(E9thTokenError::Unauthorized), state)
            } else if amount == 0 {
                (Err(E9thTokenError::InvalidAmount), state)
            } else {
                let st2 = ProgramState {
                    total_supply: sat_add_u64(st.total_supply, amount),
                    ..st
                };
                (
                    Ok(
                        LedgerAction::MintTo {
                            token_program: token_program_key,
                            mint: mint_key,
                            destination: destination_key,
                            authority: admin_key,
                            amount,
                        },
                    ),
                    st2.encoding(),
                )
            }
        },
    }
}

/// What `process_burn` returns and leaves in the state buffer.
pub open spec fn spec_burn(
    state: Seq<u8>,
    admin_key: Identity,
    admin_is_signer: bool,
    token_program_key: Identity,
    mint_key: Identity,
    source_key: Identity,
    amount: u64,
) -> (Result<LedgerAction, E9thTokenError>, Seq<u8>) {
    match ProgramState::decoding(state) {
        None => (Err(E9thTokenError::InvalidAccountData), state),
        Some(st) => {
            if st.admin != admin_key {
                (Err(E9thTokenError::InvalidAdmin), state)
            } else if !admin_is_signer {
                (Err(E9thTokenError::Unauthorized), state)
            } else if amount == 0 {
                (Err(E9thTokenError::InvalidAmount), state)
            } else {
                let st2 = ProgramState {
                    total_supply: sat_sub_u64(st.total_supply, amount),
                    ..st
                };
                (
                    Ok(
                        LedgerAction::BurnTokens {
                            token_program: token_program_key,
                            source: source_key,
                            mint: mint_key,
                            authority: admin_key,
                            amount,
                        },
                    ),
                    st2.encoding(),
                )
            }
        },
    }
}

/// What `process_update_settings` returns and leaves in the state buffer:
/// the present fields are applied to the record, period bounds checked per
/// field, the cross-field constraint checked after all fields are applied,
/// and nothing is written to the buffer unless everything passed.
pub open spec fn spec_update_settings(
    state: Seq<u8>,
    admin_key: Identity,
    admin_is_signer: bool,
    reward_rate: Option<u16>,
    min_stake_period: Option<u64>,
    max_stake_period: Option<u64>,
    staking_enabled: Option<bool>,
) -> (Result<(), E9thTokenError>, Seq<u8>) {
    match ProgramState::decoding(state) {
        None => (Err(E9thTokenError::InvalidAccountData), state),
        Some(st) => {
            if st.admin != admin_key {
                (Err(E9thTokenError::InvalidAdmin), state)
            } else if !admin_is_signer {
                (Err(E9thTokenError::Unauthorized), state)
            } else if (match min_stake_period {
                Some(p) => p < 1,
                None => false,
            }) {
                (Err(E9thTokenError::StakePeriodTooShort), state)
            } else if (match max_stake_period {
                Some(p) => p > 365,
                None => false,
            }) {
                (Err(E9thTokenError::StakePeriodTooLong), state)
            } else {
                let st2 = ProgramState {
                    reward_rate: match reward_rate {
                        Some(v) => v,
                        None => st.reward_rate,
                    },
                    min_stake_period: match min_stake_period {
                        Some(v) => v,
                        None => st.min_stake_period,
                    },
                    max_stake_period: match max_stake_period {
                        Some(v) => v,
                        None => st.max_stake_period,
                    },
                    staking_enabled: match staking_enabled {
                        Some(v) => v,
                        None => st.staking_enabled,
                    },
                    ..st
                };
                if st2.min_stake_period > st2.max_stake_period {
                    (Err(E9thTokenError::InvalidStakePeriod), state)
                } else {
                    (Ok(()), st2.encoding())
                }
            }
        },
    }
}

/// What `process_transfer_admin` returns and leaves in the state buffer.
pub open spec fn spec_transfer_admin(
    state: Seq<u8>,
    admin_key: Identity,
    admin_is_signer: bool,
    new_admin: Identity,
) -> (Result<(), E9thTokenError>, Seq<u8>) {
    match ProgramState::decoding(state) {
        None => (Err(E9thTokenError::InvalidAccountData), state),
        Some(st) => {
            if st.admin != admin_key {
                (Err(E9thTokenError::InvalidAdmin), state)
            } else if !admin_is_signer {
                (Err(E9thTokenError::Unauthorized), state)
            } else {
                let st2 = ProgramState { admin: new_admin, ..st };
                (Ok(()), st2.encoding())
            }
        },
    }
}

/// The administrative operations.
pub struct AdminProcessor;

impl AdminProcessor {
    /// Creates the program state: fails on a non-writable or already
    /// populated buffer or a non-signing admin; otherwise provisions the
    /// 100-byte record with the given supply, rate and period bounds,
    /// staking enabled and nothing staked.
    pub fn process_initialize(
        program_id: &Identity,
        state_key: &Identity,
        state_is_writable: bool,
        state_data: &mut Vec<u8>,
        admin_key: &Identity,
        admin_is_signer: bool,
        mint_key: &Identity,
        total_supply: u64,
        reward_rate: u16,
        min_stake_period: u64,
        max_stake_period: u64,
    ) -> (r: Result<LedgerAction, E9thTokenError>)
        ensures
            ({
                let expect = spec_initialize(
                    *program_id,
                    *state_key,
                    state_is_writable,
                    old(state_data)@,
                    *admin_key,
                    admin_is_signer,
                    *mint_key,
                    total_supply,
                    reward_rate,
                    min_stake_period,
                    max_stake_period,
                );
                r == expect.0 && final(state_data)@ == expect.1
            }),
    {
        if !state_is_writable {
            return Err(E9thTokenError::InvalidAccountData);
        }
        if !admin_is_signer {
            return Err(E9thTokenError::Unauthorized);
        }
        if state_data.len() != 0 {
            return Err(E9thTokenError::AccountAlreadyInitialized);
        }
        let st = ProgramState {
            admin: *admin_key,
            mint: *mint_key,
            total_supply,
            staking_enabled: true,
            reward_rate,
            min_stake_period,
            max_stake_period,
            total_staked: 0,
            bump: 0,
        };
        *state_data = st.to_bytes();
        Ok(
            LedgerAction::CreateStateAccount {
                funder: *admin_key,
                address: *state_key,
                owner: *program_id,
                space: 100,
            },
        )
    }

    /// Mints `amount` tokens: demands the recorded admin as a signer and a
    /// non-zero amount, owes the mint call to the host, and raises the
    /// recorded total supply by `amount`, stopping at the 64-bit maximum.
    pub fn process_mint(
        state_data: &mut Vec<u8>,
        admin_key: &Identity,
        admin_is_signer: bool,
        token_program_key: &Identity,
        mint_key: &Identity,
        destination_key: &Identity,
        amount: u64,
    ) -> (r: Result<LedgerAction, E9thTokenError>)
        ensures
            ({
                let expect = spec_mint(
                    old(state_data)@,
                    *admin_key,
                    admin_is_signer,
                    *token_program_key,
                    *mint_key,
                    *destination_key,
                    amount,
                );
                r == expect.0 && final(state_data)@ == expect.1
            }),
    {
        let st = match ProgramState::read_from(state_data.as_slice()) {
            Ok(s) => s,
            Err(e) => {
                return Err(e);
            },
        };
        if !(st.admin == *admin_key) {
            return Err(E9thTokenError::InvalidAdmin);
        }
        if !admin_is_signer {
            return Err(E9thTokenError::Unauthorized);
        }
        if amount == 0 {
            return Err(E9thTokenError::InvalidAmount);
        }
        let st2 = ProgramState { total_supply: st.total_supply.saturating_add(amount), ..st };
        proof {
            lemma_program_state_len(st2);
        }
        serialize_account_data(state_data, &st2)?;
        proof {
            assert(final(state_data)@ =~= st2.encoding());
        }
        Ok(
            LedgerAction::MintTo {
                token_program: *token_program_key,
                mint: *mint_key,
                destination: *destination_key,
                authority: *admin_key,
                amount,
            },
        )
    }

    /// Burns `amount` tokens: demands the recorded admin as a signer and a
    /// non-zero amount, owes the burn call to the host, and lowers the
    /// recorded total supply by `amount`, stopping at zero.
    pub fn process_burn(
        state_data: &mut Vec<u8>,
        admin_key: &Identity,
        admin_is_signer: bool,
        token_program_key: &Identity,
        mint_key: &Identity,
        source_key: &Identity,
        amount: u64,
    ) -> (r: Result<LedgerAction, E9thTokenError>)
        ensures
            ({
                let expect = spec_burn(
                    old(state_data)@,
                    *admin_key,
                    admin_is_signer,
                    *token_program_key,
                    *mint_key,
                    *source_key,
                    amount,
                );
                r == expect.0 && final(state_data)@ == expect.1
            }),
    {
        let st = match ProgramState::read_from(state_data.as_slice()) {
            Ok(s) => s,
            Err(e) => {
                return Err(e);
            },
        };
        if !(st.admin == *admin_key) {
            return Err(E9thTokenError::InvalidAdmin);
        }
        if !admin_is_signer {
            return Err(E9thTokenError::Unauthorized);
        }
        if amount == 0 {
            return Err(E9thTokenError::InvalidAmount);
        }
        let st2 = ProgramState { total_supply: st.total_supply.saturating_sub(amount), ..st };
        proof {
            lemma_program_state_len(st2);
        }
        serialize_account_data(state_data, &st2)?;
        proof {
            assert(final(state_data)@ =~= st2.encoding());
        }
        Ok(
            LedgerAction::BurnTokens {
                token_program: *token_program_key,
                source: *source_key,
                mint: *mint_key,
                authority: *admin_key,
                amount,
            },
        )
    }

    /// Applies a sparse settings update: only the present fields change; a
    /// present minimum below 1 or maximum above 365 is rejected per field,
    /// and a minimum above the maximum after all fields are applied rejects
    /// the whole update; on any rejection the buffer is untouched.
    pub fn process_update_settings(
        state_data: &mut Vec<u8>,
        admin_key: &Identity,
        admin_is_signer: bool,
        reward_rate: Option<u16>,
        min_stake_period: Option<u64>,
        max_stake_period: Option<u64>,
        staking_enabled: Option<bool>,
    ) -> (r: Result<(), E9thTokenError>)
        ensures
            ({
                let expect = spec_update_settings(
                    old(state_data)@,
                    *admin_key,
                    admin_is_signer,
                    reward_rate,
                    min_stake_period,
                    max_stake_period,
                    staking_enabled,
                );
                r == expect.0 && final(state_data)@ == expect.1
            }),
    {
        let st = match ProgramState::read_from(state_data.as_slice()) {
            Ok(s) => s,
            Err(e) => {
                return Err(e);
            },
        };
        if !(st.admin == *admin_key) {
            return Err(E9thTokenError::InvalidAdmin);
        }
        if !admin_is_signer {
            return Err(E9thTokenError::Unauthorized);
        }
        let mut st2 = st;
        if let Some(rate) = reward_rate {
            st2.reward_rate = rate;
        }
        if let Some(period) = min_stake_period {
            if period < 1 {
                return Err(E9thTokenError::StakePeriodTooShort);
            }
            st2.min_stake_period = period;
        }
        if let Some(period) = max_stake_period {
            if period > 365 {
                return Err(E9thTokenError::StakePeriodTooLong);
            }
            st2.max_stake_period = period;
        }
        if let Some(enabled) = staking_enabled {
            st2.staking_enabled = enabled;
        }
        if st2.min_stake_period > st2.max_stake_period {
            return Err(E9thTokenError::InvalidStakePeriod);
        }
        proof {
            lemma_program_state_len(st2);
        }
        serialize_account_data(state_data, &st2)?;
        proof {
            assert(final(state_data)@ =~= st2.encoding());
        }
        Ok(())
    }

    /// Replaces the admin identity unconditionally, once the current admin
    /// has matched and signed; there is no acceptance step by the new admin.
    pub fn process_transfer_admin(
        state_data: &mut Vec<u8>,
        admin_key: &Identity,
        admin_is_signer: bool,
        new_admin: Identity,
    ) -> (r: Result<(), E9thTokenError>)
        ensures
            ({
                let expect = spec_transfer_admin(
                    old(state_data)@,
                    *admin_key,
                    admin_is_signer,
                    new_admin,
                );
                r == expect.0 && final(state_data)@ == expect.1
            }),
    {
        let st = match ProgramState::read_from(state_data.as_slice()) {
            Ok(s) => s,
            Err(e) => {
                return Err(e);
            },
        };
        if !(st.admin == *admin_key) {
            return Err(E9thTokenError::InvalidAdmin);
        }
        if !admin_is_signer {
            return Err(E9thTokenError::Unauthorized);
        }
        let st2 = ProgramState { admin: new_admin, ..st };
        proof {
            lemma_program_state_len(st2);
        }
        serialize_account_data(state_data, &st2)?;
        proof {
            assert(final(state_data)@ =~= st2.encoding());
        }
        Ok(())
    }
}

/// Burning more than the recorded supply leaves the supply at exactly zero:
/// the decrement stops at zero and never wraps.
pub proof fn lemma_burn_saturates(
    state: Seq<u8>,
    admin_key: Identity,
    token_program_key: Identity,
    mint_key: Identity,
    source_key: Identity,
    amount: u64,
)
    requires
        ProgramState::decoding(state) is Some,
        ProgramState::decoding(state).unwrap().admin == admin_key,
        amount > ProgramState::decoding(state).unwrap().total_supply,
    ensures
        ({
            let (r, new_state) = spec_burn(
                state,
                admin_key,
                true,
                token_program_key,
                mint_key,
                source_key,
                amount,
            );
            &&& r is Ok
            &&& ProgramState::decoding(new_state) is Some
            &&& ProgramState::decoding(new_state).unwrap().total_supply == 0
        }),
{
    let st = ProgramState::decoding(state).unwrap();
    let st2 = ProgramState { total_supply: sat_sub_u64(st.total_supply, amount), ..st };
    crate::state::lemma_program_state_round_trip(st2);
}

/// No administrative operation run with a non-matching admin identity or a
/// missing signature changes the state buffer: each rejects with
/// `InvalidAdmin` or `Unauthorized` before anything is written.
pub proof fn lemma_admin_ops_require_authorization(
    state: Seq<u8>,
    admin_key: Identity,
    admin_is_signer: bool,
    token_program_key: Identity,
    mint_key: Identity,
    other_key: Identity,
    amount: u64,
    reward_rate: Option<u16>,
    min_stake_period: Option<u64>,
    max_stake_period: Option<u64>,
    staking_enabled: Option<bool>,
    new_admin: Identity,
)
    requires
        ProgramState::decoding(state) is Some,
        ProgramState::decoding(state).unwrap().admin != admin_key || !admin_is_signer,
    ensures
        ({
            let (r, s) = spec_mint(
                state,
                admin_key,
                admin_is_signer,
                token_program_key,
                mint_key,
                other_key,
                amount,
            );
            r is Err && s == state && (r == Err::<LedgerAction, E9thTokenError>(
                E9thTokenError::InvalidAdmin,
            ) || r == Err::<LedgerAction, E9thTokenError>(E9thTokenError::Unauthorized))
        }),
        ({
            let (r, s) = spec_burn(
                state,
                admin_key,
                admin_is_signer,
                token_program_key,
                mint_key,
                other_key,
                amount,
            );
            r is Err && s == state && (r == Err::<LedgerAction, E9thTokenError>(
                E9thTokenError::InvalidAdmin,
            ) || r == Err::<LedgerAction, E9thTokenError>(E9thTokenError::Unauthorized))
        }),
        ({
            let (r, s) = spec_update_settings(
                state,
                admin_key,
                admin_is_signer,
                reward_rate,
                min_stake_period,
                max_stake_period,
                staking_enabled,
            );
            r is Err && s == state && (r == Err::<(), E9thTokenError>(E9thTokenError::InvalidAdmin)
                || r == Err::<(), E9thTokenError>(E9thTokenError::Unauthorized))
        }),
        ({
            let (r, s) = spec_transfer_admin(state, admin_key, admin_is_signer, new_admin);
            r is Err && s == state && (r == Err::<(), E9thTokenError>(E9thTokenError::InvalidAdmin)
                || r == Err::<(), E9thTokenError>(E9thTokenError::Unauthorized))
        }),
{
}

} // verus!
