//! The dispatcher: decodes an instruction payload, current dialect first,
//! and routes it to the matching handler over the given accounts.

use crate::account::{Account, AccountView, LedgerAction};
use crate::admin::{
    spec_burn, spec_initialize, spec_mint, spec_transfer_admin, spec_update_settings,
    AdminProcessor,
};
use crate::error::E9thTokenError;
use crate::identity::Identity;
use crate::instruction::{
    decode_instruction, spec_decode, E9thInstruction, E9thInstructionView,
};
use crate::stake::{spec_claim_rewards, spec_stake, spec_unstake, StakeProcessor};
use vstd::prelude::*;

verus! {

/// The mathematical values of a list of account handles.
pub open spec fn views_of(accounts: Seq<Account>) -> Seq<AccountView> {
    accounts.map_values(|a: Account| a@)
}

/// The epoch the engine works at. The host's clock oracle is not consulted
/// in this build; the epoch is a fixed value.
pub open spec fn spec_current_epoch() -> u64 {
    100
}

/// Returns the current epoch.
pub fn get_current_epoch() -> (r: u64)
    ensures
        r == spec_current_epoch(),
{
    100
}

/// The timestamp the engine works at. The host's clock oracle is not
/// consulted in this build; the timestamp is a fixed value.
pub open spec fn spec_current_timestamp() -> u64 {
    1640995200
}

/// Returns the current timestamp.
pub fn get_current_timestamp() -> (r: u64)
    ensures
        r == spec_current_timestamp(),
{
    1640995200
}

/// What one decoded command does to the accounts, and what it returns.
/// A legacy operation reads its fixed account positions; a current-dialect
/// operation is accepted and does nothing in this build.
pub open spec fn spec_dispatch(
    program_id: Identity,
    accounts: Seq<AccountView>,
    cmd: E9thInstructionView,
) -> (Result<LedgerAction, E9thTokenError>, Seq<AccountView>) {
    match cmd {
        E9thInstructionView::LegacyInitialize {
            total_supply,
            reward_rate,
            min_stake_period,
            max_stake_period,
        } => {
            if accounts.len() < 5 {
                (Err(E9thTokenError::InvalidAccountData), accounts)
            } else {
                let st = accounts[0];
                let ad = accounts[1];
                let mi = accounts[2];
                let (r, new_state) = spec_initialize(
                    program_id,
                    st.key,
                    st.is_writable,
                    st.data,
                    ad.key,
                    ad.is_signer,
                    mi.key,
                    total_supply,
                    reward_rate,
                    min_stake_period,
                    max_stake_period,
                );
                (r, accounts.update(0, AccountView { data: new_state, ..st }))
            }
        },
        E9thInstructionView::LegacyMint { amount } => {
            if accounts.len() < 5 {
                (Err(E9thTokenError::InvalidAccountData), accounts)
            } else {
                let st = accounts[0];
                let ad = accounts[1];
                let mi = accounts[2];
                let dst = accounts[3];
                let tp = accounts[4];
                let (r, new_state) = spec_mint(
                    st.data,
                    ad.key,
                    ad.is_signer,
                    tp.key,
                    mi.key,
                    dst.key,
                    amount,
                );
                (r, accounts.update(0, AccountView { data: new_state, ..st }))
            }
        },
        E9thInstructionView::LegacyBurn { amount } => {
            if accounts.len() < 5 {
                (Err(E9thTokenError::InvalidAccountData), accounts)
            } else {
                let st = accounts[0];
                let ad = accounts[1];
                let mi = accounts[2];
                let src = accounts[3];
                let tp = accounts[4];
                let (r, new_state) = spec_burn(
                    st.data,
                    ad.key,
                    ad.is_signer,
                    tp.key,
                    mi.key,
                    src.key,
                    amount,
                );
                (r, accounts.update(0, AccountView { data: new_state, ..st }))
            }
        },
        E9thInstructionView::LegacyStake { amount, period } => {
            if accounts.len() < 5 {
                (Err(E9thTokenError::InvalidAccountData), accounts)
            } else {
                let st = accounts[0];
                let sk = accounts[1];
                let user = accounts[2];
                let (r, new_state, new_stake) = spec_stake(
                    st.data,
                    sk.data,
                    user.key,
                    user.is_signer,
                    amount,
                    period,
                    spec_current_epoch(),
                );
                let rr = match r {
                    Ok(_) => Ok(LedgerAction::NoEffect),
                    Err(e) => Err(e),
                };
                (
                    rr,
                    accounts.update(0, AccountView { data: new_state, ..st }).update(
                        1,
                        AccountView { data: new_stake, ..sk },
                    ),
                )
            }
        },
        E9thInstructionView::LegacyUnstake => {
            if accounts.len() < 5 {
                (Err(E9thTokenError::InvalidAccountData), accounts)
            } else {
                let st = accounts[0];
                let sk = accounts[1];
                let user = accounts[2];
                let (r, new_state, new_stake) = spec_unstake(
                    st.data,
                    sk.data,
                    user.key,
                    user.is_signer,
                    spec_current_epoch(),
                );
                let rr = match r {
                    Ok(amount) => Ok(LedgerAction::StakeReleased { owner: user.key, amount }),
                    Err(e) => Err(e),
                };
                (
                    rr,
                    accounts.update(0, AccountView { data: new_state, ..st }).update(
                        1,
                        AccountView { data: new_stake, ..sk },
                    ),
                )
            }
        },
        E9thInstructionView::LegacyClaimRewards => {
            if accounts.len() < 5 {
                (Err(E9thTokenError::InvalidAccountData), accounts)
            } else {
                let st = accounts[0];
                let sk = accounts[1];
                let user = accounts[2];
                let dst = accounts[3];
                let (r, new_stake) = spec_claim_rewards(
                    st.data,
                    sk.data,
                    user.key,
                    user.is_signer,
                    dst.key,
                    spec_current_epoch(),
                );
                (r, accounts.update(1, AccountView { data: new_stake, ..sk }))
            }
        },
        E9thInstructionView::LegacyUpdateSettings {
            reward_rate,
            min_stake_period,
            max_stake_period,
            staking_enabled,
        } => {
            if accounts.len() < 2 {
                (Err(E9thTokenError::InvalidAccountData), accounts)
            } else {
                let st = accounts[0];
                let ad = accounts[1];
                let (r, new_state) = spec_update_settings(
                    st.data,
                    ad.key,
                    ad.is_signer,
                    reward_rate,
                    min_stake_period,
                    max_stake_period,
                    staking_enabled,
                );
                let rr = match r {
                    Ok(_) => Ok(LedgerAction::NoEffect),
                    Err(e) => Err(e),
                };
                (rr, accounts.update(0, AccountView { data: new_state, ..st }))
            }
        },
        E9thInstructionView::LegacyTransferAdmin { new_admin } => {
            if accounts.len() < 2 {
                (Err(E9thTokenError::InvalidAccountData), accounts)
            } else {
                let st = accounts[0];
                let ad = accounts[1];
                let (r, new_state) = spec_transfer_admin(st.data, ad.key, ad.is_signer, new_admin);
                let rr = match r {
                    Ok(_) => Ok(LedgerAction::NoEffect),
                    Err(e) => Err(e),
                };
                (rr, accounts.update(0, AccountView { data: new_state, ..st }))
            }
        },
        E9thInstructionView::Airdrop { recipients, amounts } => {
            if recipients.len() != amounts.len() {
                (Err(E9thTokenError::InvalidInstruction), accounts)
            } else {
                (Ok(LedgerAction::NoEffect), accounts)
            }
        },
        _ => (Ok(LedgerAction::NoEffect), accounts),
    }
}

/// What processing an instruction payload does: decode (current dialect
/// first, then legacy), then dispatch.
pub open spec fn spec_process(
    program_id: Identity,
    accounts: Seq<AccountView>,
    data: Seq<u8>,
) -> (Result<LedgerAction, E9thTokenError>, Seq<AccountView>) {
    match spec_decode(data) {
        None => (Err(E9thTokenError::InvalidInstruction), accounts),
        Some(cmd) => spec_dispatch(program_id, accounts, cmd),
    }
}

/// The dispatcher.
pub struct Processor;

impl Processor {
    /// Decodes the payload, current dialect first, and routes the command to
    /// its handler over the given accounts.
    pub fn process(
        program_id: &Identity,
        accounts: &mut Vec<Account>,
        instruction_data: &[u8],
    ) -> (r: Result<LedgerAction, E9thTokenError>)
        ensures
            ({
                let expect = spec_process(
                    *program_id,
                    views_of(old(accounts)@),
                    instruction_data@,
                );
                r == expect.0 && views_of(final(accounts)@) == expect.1
            }),
    {
        let instruction = decode_instruction(instruction_data)?;
        match instruction {
            E9thInstruction::Initialize { owner, operator, treasury, burn_rate_basis_points } => {
                Self::process_enhanced_initialize(
                    program_id,
                    accounts,
                    owner,
                    operator,
                    treasury,
                    burn_rate_basis_points,
                )
            },
            E9thInstruction::SetPause { pause } => Self::process_set_pause(
                program_id,
                accounts,
                pause,
            ),
            E9thInstruction::ModifyBlacklist { account, add } => Self::process_modify_blacklist(
                program_id,
                accounts,
                account,
                add,
            ),
            E9thInstruction::Transfer { amount } => Self::process_enhanced_transfer(
                program_id,
                accounts,
                amount,
            ),
            E9thInstruction::Airdrop { recipients, amounts } => Self::process_airdrop(
                program_id,
                accounts,
                recipients,
                amounts,
            ),
            E9thInstruction::Stake { amount } => Self::process_enhanced_stake(
                program_id,
                accounts,
                amount,
            ),
            E9thInstruction::Unstake { amount } => Self::process_enhanced_unstake(
                program_id,
                accounts,
                amount,
            ),
            E9thInstruction::ClaimRewards => Self::process_enhanced_claim_rewards(
                program_id,
                accounts,
            ),
            E9thInstruction::LegacyInitialize {
                total_supply,
                reward_rate,
                min_stake_period,
                max_stake_period,
            } => {
                if accounts.len() < 5 {
                    return Err(E9thTokenError::InvalidAccountData);
                }
                let state_key = accounts[0].key;
                let state_owner = accounts[0].owner;
                let state_signer = accounts[0].is_signer;
                let state_writable = accounts[0].is_writable;
                let mut state_data = accounts[0].data.clone();
                let admin_key = accounts[1].key;
                let admin_signer = accounts[1].is_signer;
                let mint_key = accounts[2].key;
                let r = AdminProcessor::process_initialize(
                    program_id,
                    &state_key,
                    state_writable,
                    &mut state_data,
                    &admin_key,
                    admin_signer,
                    &mint_key,
                    total_supply,
                    reward_rate,
                    min_stake_period,
                    max_stake_period,
                );
                accounts[0] = Account {
                    key: state_key,
                    owner: state_owner,
                    is_signer: state_signer,
                    is_writable: state_writable,
                    data: state_data,
                };
                proof {
                    let expect = spec_process(
                        *program_id,
                        views_of(old(accounts)@),
                        instruction_data@,
                    );
                    assert(views_of(accounts@) =~= expect.1);
                }
                r
            },
            E9thInstruction::LegacyMint { amount } => {
                if accounts.len() < 5 {
                    return Err(E9thTokenError::InvalidAccountData);
                }
                let state_key = accounts[0].key;
                let state_owner = accounts[0].owner;
                let state_signer = accounts[0].is_signer;
                let state_writable = accounts[0].is_writable;
                let mut state_data = accounts[0].data.clone();
                let admin_key = accounts[1].key;
                let admin_signer = accounts[1].is_signer;
                let mint_key = accounts[2].key;
                let destination_key = accounts[3].key;
                let token_program_key = accounts[4].key;
                let r = AdminProcessor::process_mint(
                    &mut state_data,
                    &admin_key,
                    admin_signer,
                    &token_program_key,
                    &mint_key,
                    &destination_key,
                    amount,
                );
                accounts[0] = Account {
                    key: state_key,
                    owner: state_owner,
                    is_signer: state_signer,
                    is_writable: state_writable,
                    data: state_data,
                };
                proof {
                    let expect = spec_process(
                        *program_id,
                        views_of(old(accounts)@),
                        instruction_data@,
                    );
                    assert(views_of(accounts@) =~= expect.1);
                }
                r
            },
            E9thInstruction::LegacyBurn { amount } => {
                if accounts.len() < 5 {
                    return Err(E9thTokenError::InvalidAccountData);
                }
                let state_key = accounts[0].key;
                let state_owner = accounts[0].owner;
                let state_signer = accounts[0].is_signer;
                let state_writable = accounts[0].is_writable;
                let mut state_data = accounts[0].data.clone();
                let admin_key = accounts[1].key;
                let admin_signer = accounts[1].is_signer;
                let mint_key = accounts[2].key;
                let source_key = accounts[3].key;
                let token_program_key = accounts[4].key;
                let r = AdminProcessor::process_burn(
                    &mut state_data,
                    &admin_key,
                    admin_signer,
                    &token_program_key,
                    &mint_key,
                    &source_key,
                    amount,
                );
                accounts[0] = Account {
                    key: state_key,
                    owner: state_owner,
                    is_signer: state_signer,
                    is_writable: state_writable,
                    data: state_data,
                };
                proof {
                    let expect = spec_process(
                        *program_id,
                        views_of(old(accounts)@),
                        instruction_data@,
                    );
                    assert(views_of(accounts@) =~= expect.1);
                }
                r
            },
            E9thInstruction::LegacyStake { amount, period } => {
                if accounts.len() < 5 {
                    return Err(E9thTokenError::InvalidAccountData);
                }
                let state_key = accounts[0].key;
                let state_owner = accounts[0].owner;
                let state_signer = accounts[0].is_signer;
                let state_writable = accounts[0].is_writable;
                let mut state_data = accounts[0].data.clone();
                let stake_key = accounts[1].key;
                let stake_owner = accounts[1].owner;
                let stake_signer = accounts[1].is_signer;
                let stake_writable = accounts[1].is_writable;
                let mut stake_data = accounts[1].data.clone();
                let user_key = accounts[2].key;
                let user_signer = accounts[2].is_signer;
                let r = StakeProcessor::process_stake(
                    &mut state_data,
                    &mut stake_data,
                    &user_key,
                    user_signer,
                    amount,
                    period,
                );
                accounts[0] = Account {
                    key: state_key,
                    owner: state_owner,
                    is_signer: state_signer,
                    is_writable: state_writable,
                    data: state_data,
                };
                accounts[1] = Account {
                    key: stake_key,
                    owner: stake_owner,
                    is_signer: stake_signer,
                    is_writable: stake_writable,
                    data: stake_data,
                };
                proof {
                    let expect = spec_process(
                        *program_id,
                        views_of(old(accounts)@),
                        instruction_data@,
                    );
                    assert(views_of(accounts@) =~= expect.1);
                }
                match r {
                    Ok(_) => Ok(LedgerAction::NoEffect),
                    Err(e) => Err(e),
                }
            },
            E9thInstruction::LegacyUnstake => {
                if accounts.len() < 5 {
                    return Err(E9thTokenError::InvalidAccountData);
                }
                let state_key = accounts[0].key;
                let state_owner = accounts[0].owner;
                let state_signer = accounts[0].is_signer;
                let state_writable = accounts[0].is_writable;
                let mut state_data = accounts[0].data.clone();
                let stake_key = accounts[1].key;
                let stake_owner = accounts[1].owner;
                let stake_signer = accounts[1].is_signer;
                let stake_writable = accounts[1].is_writable;
                let mut stake_data = accounts[1].data.clone();
                let user_key = accounts[2].key;
                let user_signer = accounts[2].is_signer;
                let r = StakeProcessor::process_unstake(
                    &mut state_data,
                    &mut stake_data,
                    &user_key,
                    user_signer,
                );
                accounts[0] = Account {
                    key: state_key,
                    owner: state_owner,
                    is_signer: state_signer,
                    is_writable: state_writable,
                    data: state_data,
                };
                accounts[1] = Account {
                    key: stake_key,
                    owner: stake_owner,
                    is_signer: stake_signer,
                    is_writable: stake_writable,
                    data: stake_data,
                };
                proof {
                    let expect = spec_process(
                        *program_id,
                        views_of(old(accounts)@),
                        instruction_data@,
                    );
                    assert(views_of(accounts@) =~= expect.1);
                }
                match r {
                    Ok(amount) => Ok(LedgerAction::StakeReleased { owner: user_key, amount }),
                    Err(e) => Err(e),
                }
            },
            E9thInstruction::LegacyClaimRewards => {
                if accounts.len() < 5 {
                    return Err(E9thTokenError::InvalidAccountData);
                }
                let state_data = accounts[0].data.clone();
                let stake_key = accounts[1].key;
                let stake_owner = accounts[1].owner;
                let stake_signer = accounts[1].is_signer;
                let stake_writable = accounts[1].is_writable;
                let mut stake_data = accounts[1].data.clone();
                let user_key = accounts[2].key;
                let user_signer = accounts[2].is_signer;
                let destination_key = accounts[3].key;
                let r = StakeProcessor::process_claim_rewards(
                    &state_data,
                    &mut stake_data,
                    &user_key,
                    user_signer,
                    &destination_key,
                );
                accounts[1] = Account {
                    key: stake_key,
                    owner: stake_owner,
                    is_signer: stake_signer,
                    is_writable: stake_writable,
                    data: stake_data,
                };
                proof {
                    let expect = spec_process(
                        *program_id,
                        views_of(old(accounts)@),
                        instruction_data@,
                    );
                    assert(views_of(accounts@) =~= expect.1);
                }
                r
            },
            E9thInstruction::LegacyUpdateSettings {
                reward_rate,
                min_stake_period,
                max_stake_period,
                staking_enabled,
            } => {
                if accounts.len() < 2 {
                    return Err(E9thTokenError::InvalidAccountData);
                }
                let state_key = accounts[0].key;
                let state_owner = accounts[0].owner;
                let state_signer = accounts[0].is_signer;
                let state_writable = accounts[0].is_writable;
                let mut state_data = accounts[0].data.clone();
                let admin_key = accounts[1].key;
                let admin_signer = accounts[1].is_signer;
                let r = AdminProcessor::process_update_settings(
                    &mut state_data,
                    &admin_key,
                    admin_signer,
                    reward_rate,
                    min_stake_period,
                    max_stake_period,
                    staking_enabled,
                );
                accounts[0] = Account {
                    key: state_key,
                    owner: state_owner,
                    is_signer: state_signer,
                    is_writable: state_writable,
                    data: state_data,
                };
                proof {
                    let expect = spec_process(
                        *program_id,
                        views_of(old(accounts)@),
                        instruction_data@,
                    );
                    assert(views_of(accounts@) =~= expect.1);
                }
                match r {
                    Ok(_) => Ok(LedgerAction::NoEffect),
                    Err(e) => Err(e),
                }
            },
            E9thInstruction::LegacyTransferAdmin { new_admin } => {
                if accounts.len() < 2 {
                    return Err(E9thTokenError::InvalidAccountData);
                }
                let state_key = accounts[0].key;
                let state_owner = accounts[0].owner;
                let state_signer = accounts[0].is_signer;
                let state_writable = accounts[0].is_writable;
                let mut state_data = accounts[0].data.clone();
                let admin_key = accounts[1].key;
                let admin_signer = accounts[1].is_signer;
                let r = AdminProcessor::process_transfer_admin(
                    &mut state_data,
                    &admin_key,
                    admin_signer,
                    new_admin,
                );
                accounts[0] = Account {
                    key: state_key,
                    owner: state_owner,
                    is_signer: state_signer,
                    is_writable: state_writable,
                    data: state_data,
                };
                proof {
                    let expect = spec_process(
                        *program_id,
                        views_of(old(accounts)@),
                        instruction_data@,
                    );
                    assert(views_of(accounts@) =~= expect.1);
                }
                match r {
                    Ok(_) => Ok(LedgerAction::NoEffect),
                    Err(e) => Err(e),
                }
            },
        }
    }

    /// Enhanced initialize: accepted and not yet acted on in this build.
    fn process_enhanced_initialize(
        program_id: &Identity,
        accounts: &Vec<Account>,
        owner: Identity,
        operator: Identity,
        treasury: Identity,
        burn_rate_basis_points: u16,
    ) -> (r: Result<LedgerAction, E9thTokenError>)
        ensures
            r == Ok::<LedgerAction, E9thTokenError>(LedgerAction::NoEffect),
    {
        Ok(LedgerAction::NoEffect)
    }

    /// Pause switch: accepted and not yet acted on in this build.
    fn process_set_pause(
        program_id: &Identity,
        accounts: &Vec<Account>,
        pause: bool,
    ) -> (r: Result<LedgerAction, E9thTokenError>)
        ensures
            r == Ok::<LedgerAction, E9thTokenError>(LedgerAction::NoEffect),
    {
        Ok(LedgerAction::NoEffect)
    }

    /// Blacklist change: accepted and not yet acted on in this build.
    fn process_modify_blacklist(
        program_id: &Identity,
        accounts: &Vec<Account>,
        account: Identity,
        add: bool,
    ) -> (r: Result<LedgerAction, E9thTokenError>)
        ensures
            r == Ok::<LedgerAction, E9thTokenError>(LedgerAction::NoEffect),
    {
        Ok(LedgerAction::NoEffect)
    }

    /// Enhanced transfer: accepted and not yet acted on in this build.
    fn process_enhanced_transfer(
        program_id: &Identity,
        accounts: &Vec<Account>,
        amount: u64,
    ) -> (r: Result<LedgerAction, E9thTokenError>)
        ensures
            r == Ok::<LedgerAction, E9thTokenError>(LedgerAction::NoEffect),
    {
        Ok(LedgerAction::NoEffect)
    }

    /// Batch airdrop: the recipient and amount runs must pair up exactly;
    /// beyond that check it is accepted and not yet acted on in this build.
    fn process_airdrop(
        program_id: &Identity,
        accounts: &Vec<Account>,
        recipients: Vec<Identity>,
        amounts: Vec<u64>,
    ) -> (r: Result<LedgerAction, E9thTokenError>)
        ensures
            r == if recipients@.len() == amounts@.len() {
                Ok::<LedgerAction, E9thTokenError>(LedgerAction::NoEffect)
            } else {
                Err::<LedgerAction, E9thTokenError>(E9thTokenError::InvalidInstruction)
            },
    {
        if recipients.len() != amounts.len() {
            return Err(E9thTokenError::InvalidInstruction);
        }
        Ok(LedgerAction::NoEffect)
    }

    /// Enhanced stake: accepted and not yet acted on in this build.
    fn process_enhanced_stake(
        program_id: &Identity,
        accounts: &Vec<Account>,
        amount: u64,
    ) -> (r: Result<LedgerAction, E9thTokenError>)
        ensures
            r == Ok::<LedgerAction, E9thTokenError>(LedgerAction::NoEffect),
    {
        Ok(LedgerAction::NoEffect)
    }

    /// Enhanced unstake: accepted and not yet acted on in this build.
    fn process_enhanced_unstake(
        program_id: &Identity,
        accounts: &Vec<Account>,
        amount: u64,
    ) -> (r: Result<LedgerAction, E9thTokenError>)
        ensures
            r == Ok::<LedgerAction, E9thTokenError>(LedgerAction::NoEffect),
    {
        Ok(LedgerAction::NoEffect)
    }

    /// Enhanced claim: accepted and not yet acted on in this build.
    fn process_enhanced_claim_rewards(
        program_id: &Identity,
        accounts: &Vec<Account>,
    ) -> (r: Result<LedgerAction, E9thTokenError>)
        ensures
            r == Ok::<LedgerAction, E9thTokenError>(LedgerAction::NoEffect),
    {
        Ok(LedgerAction::NoEffect)
    }
}

/// Returns the account at `index`, failing if the list is too short.
pub fn get_program_state_account(accounts: &Vec<Account>, index: usize) -> (r: Result<
    &Account,
    E9thTokenError,
>)
    ensures
        match r {
            Ok(a) => index < accounts@.len() && a == &accounts[index as int],
            Err(e) => index >= accounts@.len() && e == E9thTokenError::InvalidAccountData,
        },
{
    if accounts.len() <= index {
        return Err(E9thTokenError::InvalidAccountData);
    }
    Ok(&accounts[index])
}

/// Returns the account at `index`, failing if the list is too short or the
/// account did not sign the call.
pub fn get_signer_account(accounts: &Vec<Account>, index: usize) -> (r: Result<
    &Account,
    E9thTokenError,
>)
    ensures
        match r {
            Ok(a) => index < accounts@.len() && a == &accounts[index as int] && a.is_signer,
            Err(e) => {
                if index >= accounts@.len() {
                    e == E9thTokenError::InvalidAccountData
                } else {
                    !accounts[index as int].is_signer && e == E9thTokenError::Unauthorized
                }
            },
        },
{
    let account = get_program_state_account(accounts, index)?;
    if !account.is_signer {
        return Err(E9thTokenError::Unauthorized);
    }
    Ok(account)
}

/// Returns the account at `index`, failing if the list is too short or the
/// account's buffer may not be written.
pub fn get_writable_account(accounts: &Vec<Account>, index: usize) -> (r: Result<
    &Account,
    E9thTokenError,
>)
    ensures
        match r {
            Ok(a) => index < accounts@.len() && a == &accounts[index as int] && a.is_writable,
            Err(e) => {
                if index >= accounts@.len() {
                    e == E9thTokenError::InvalidAccountData
                } else {
                    !accounts[index as int].is_writable && e == E9thTokenError::InvalidAccountData
                }
            },
        },
{
    let account = get_program_state_account(accounts, index)?;
    if !account.is_writable {
        return Err(E9thTokenError::InvalidAccountData);
    }
    Ok(account)
}

/// Checks that `account` is owned by `expected_owner`.
pub fn validate_account_owner(account: &Account, expected_owner: &Identity) -> (r: Result<
    (),
    E9thTokenError,
>)
    ensures
        match r {
            Ok(_) => account.owner == *expected_owner,
            Err(e) => account.owner != *expected_owner && e == E9thTokenError::InvalidAccountOwner,
        },
{
    if !(account.owner == *expected_owner) {
        return Err(E9thTokenError::InvalidAccountOwner);
    }
    Ok(())
}

} // verus!
