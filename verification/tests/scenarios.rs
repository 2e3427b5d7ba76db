//! End-to-end scenarios over the handlers and the dispatcher.

use e9th_token_program::state::AccountRecord;
use e9th_token_program::{
    Account, E9thInstruction, E9thTokenError, E9thTokenInstruction, Identity, LedgerAction,
    ProgramState, StakeAccount,
};
use e9th_token_program::admin::AdminProcessor;
use e9th_token_program::stake::StakeProcessor;
use e9th_token_program::processor::{
    get_current_epoch, get_current_timestamp, get_program_state_account, get_signer_account,
    get_writable_account, validate_account_owner, Processor,
};
use e9th_token_program::state::{deserialize_account_data, serialize_account_data};

fn id(n: u64) -> Identity {
    Identity { w0: n, w1: n + 1, w2: n + 2, w3: n + 3 }
}

fn initialized_state(admin: Identity, mint: Identity) -> Vec<u8> {
    let program_id = id(900);
    let state_key = id(901);
    let mut state_data: Vec<u8> = Vec::new();
    AdminProcessor::process_initialize(
        &program_id,
        &state_key,
        true,
        &mut state_data,
        &admin,
        true,
        &mint,
        1_000_000,
        100,
        1,
        365,
    )
    .unwrap();
    state_data
}

#[test]
fn initialize_on_empty_buffer_populates_the_record() {
    let program_id = id(900);
    let state_key = id(901);
    let admin = id(1);
    let mint = id(2);
    let mut state_data: Vec<u8> = Vec::new();
    let action = AdminProcessor::process_initialize(
        &program_id,
        &state_key,
        true,
        &mut state_data,
        &admin,
        true,
        &mint,
        1_000_000,
        100,
        1,
        365,
    )
    .unwrap();
    assert_eq!(
        action,
        LedgerAction::CreateStateAccount {
            funder: admin,
            address: state_key,
            owner: program_id,
            space: 100,
        }
    );
    let st = ProgramState::read_from(&state_data).unwrap();
    assert_eq!(st.admin, admin);
    assert_eq!(st.mint, mint);
    assert_eq!(st.total_supply, 1_000_000);
    assert_eq!(st.total_staked, 0);
    assert!(st.staking_enabled);
    assert_eq!(st.reward_rate, 100);
    assert_eq!(st.min_stake_period, 1);
    assert_eq!(st.max_stake_period, 365);
}

#[test]
fn repeated_initialize_fails_on_populated_buffer() {
    let program_id = id(900);
    let state_key = id(901);
    let admin = id(1);
    let mint = id(2);
    let mut state_data = initialized_state(admin, mint);
    let before = state_data.clone();
    let second = AdminProcessor::process_initialize(
        &program_id,
        &state_key,
        true,
        &mut state_data,
        &admin,
        true,
        &mint,
        1_000_000,
        100,
        1,
        365,
    );
    assert_eq!(second, Err(E9thTokenError::AccountAlreadyInitialized));
    assert_eq!(state_data, before);
}

#[test]
fn stake_then_reward_schedule() {
    let admin = id(1);
    let mint = id(2);
    let user = id(3);
    let mut state_data = initialized_state(admin, mint);
    let mut stake_data = vec![0u8; 65];
    StakeProcessor::process_stake(&mut state_data, &mut stake_data, &user, true, 1000, 30)
        .unwrap();
    let sa = StakeAccount::read_from(&stake_data).unwrap();
    assert_eq!(sa.owner, user);
    assert_eq!(sa.amount, 1000);
    assert_eq!(sa.start_epoch, 100);
    assert_eq!(sa.period, 30);
    assert_eq!(sa.rewards_claimed, 0);
    let st = ProgramState::read_from(&state_data).unwrap();
    assert_eq!(st.total_staked, 1000);

    assert_eq!(sa.calculate_rewards(130, 100), 300);
    assert_eq!(sa.calculate_rewards(100, 100), 0);
    assert_eq!(sa.calculate_rewards(90, 100), 0);
}

#[test]
fn unstake_before_maturity_changes_nothing() {
    let admin = id(1);
    let mint = id(2);
    let user = id(3);
    let mut state_data = initialized_state(admin, mint);
    let mut stake_data = vec![0u8; 65];
    StakeProcessor::process_stake(&mut state_data, &mut stake_data, &user, true, 1000, 30)
        .unwrap();
    let state_before = state_data.clone();
    let stake_before = stake_data.clone();
    let r = StakeProcessor::process_unstake(&mut state_data, &mut stake_data, &user, true);
    assert_eq!(r, Err(E9thTokenError::StakeNotMature));
    assert_eq!(state_data, state_before);
    assert_eq!(stake_data, stake_before);
    let sa = StakeAccount::read_from(&stake_data).unwrap();
    assert_eq!(sa.amount, 1000);
    let st = ProgramState::read_from(&state_data).unwrap();
    assert_eq!(st.total_staked, 1000);
}

#[test]
fn unstake_after_maturity_releases_and_closes() {
    let admin = id(1);
    let mint = id(2);
    let user = id(3);
    let mut state_data = initialized_state(admin, mint);
    let mature = StakeAccount::new(user, 1000, 30, 60, 0);
    let mut stake_data = mature.to_bytes();
    let released =
        StakeProcessor::process_unstake(&mut state_data, &mut stake_data, &user, true).unwrap();
    assert_eq!(released, 1000);
    let sa = StakeAccount::read_from(&stake_data).unwrap();
    assert_eq!(sa.amount, 0);
    assert_eq!(sa.owner, user);
    let st = ProgramState::read_from(&state_data).unwrap();
    assert_eq!(st.total_staked, 0);
}

#[test]
fn claim_rewards_pays_once_and_accumulates() {
    let admin = id(1);
    let mint = id(2);
    let user = id(3);
    let destination = id(4);
    let state_data = initialized_state(admin, mint);
    let mature = StakeAccount::new(user, 1000, 30, 60, 0);
    let mut stake_data = mature.to_bytes();
    let action = StakeProcessor::process_claim_rewards(
        &state_data,
        &mut stake_data,
        &user,
        true,
        &destination,
    )
    .unwrap();
    assert_eq!(action, LedgerAction::RewardPayout { destination, amount: 300 });
    let sa = StakeAccount::read_from(&stake_data).unwrap();
    assert_eq!(sa.rewards_claimed, 300);

    let again = StakeProcessor::process_claim_rewards(
        &state_data,
        &mut stake_data,
        &user,
        true,
        &destination,
    );
    assert_eq!(again, Err(E9thTokenError::InvalidAmount));
}

#[test]
fn burn_saturates_at_zero() {
    let admin = id(1);
    let mint = id(2);
    let token_program = id(5);
    let source = id(6);
    let mut state_data = initialized_state(admin, mint);
    let action = AdminProcessor::process_burn(
        &mut state_data,
        &admin,
        true,
        &token_program,
        &mint,
        &source,
        2_000_000,
    )
    .unwrap();
    assert_eq!(
        action,
        LedgerAction::BurnTokens {
            token_program,
            source,
            mint,
            authority: admin,
            amount: 2_000_000,
        }
    );
    let st = ProgramState::read_from(&state_data).unwrap();
    assert_eq!(st.total_supply, 0);
}

#[test]
fn mint_raises_supply_and_owes_the_mint_call() {
    let admin = id(1);
    let mint = id(2);
    let token_program = id(5);
    let destination = id(7);
    let mut state_data = initialized_state(admin, mint);
    let action = AdminProcessor::process_mint(
        &mut state_data,
        &admin,
        true,
        &token_program,
        &mint,
        &destination,
        500,
    )
    .unwrap();
    assert_eq!(
        action,
        LedgerAction::MintTo { token_program, mint, destination, authority: admin, amount: 500 }
    );
    let st = ProgramState::read_from(&state_data).unwrap();
    assert_eq!(st.total_supply, 1_000_500);
}

#[test]
fn mint_rejects_zero_amount() {
    let admin = id(1);
    let mint = id(2);
    let mut state_data = initialized_state(admin, mint);
    let r = AdminProcessor::process_mint(
        &mut state_data,
        &admin,
        true,
        &id(5),
        &mint,
        &id(7),
        0,
    );
    assert_eq!(r, Err(E9thTokenError::InvalidAmount));
}

#[test]
fn admin_ops_reject_wrong_identity_and_missing_signature() {
    let admin = id(1);
    let outsider = id(99);
    let mint = id(2);
    let mut state_data = initialized_state(admin, mint);
    let before = state_data.clone();

    let r = AdminProcessor::process_mint(
        &mut state_data,
        &outsider,
        true,
        &id(5),
        &mint,
        &id(7),
        10,
    );
    assert_eq!(r, Err(E9thTokenError::InvalidAdmin));
    assert_eq!(state_data, before);

    let r = AdminProcessor::process_mint(
        &mut state_data,
        &admin,
        false,
        &id(5),
        &mint,
        &id(7),
        10,
    );
    assert_eq!(r, Err(E9thTokenError::Unauthorized));
    assert_eq!(state_data, before);

    let r = AdminProcessor::process_transfer_admin(&mut state_data, &outsider, true, id(50));
    assert_eq!(r, Err(E9thTokenError::InvalidAdmin));
    assert_eq!(state_data, before);

    let r = AdminProcessor::process_update_settings(
        &mut state_data,
        &admin,
        false,
        Some(50),
        None,
        None,
        None,
    );
    assert_eq!(r, Err(E9thTokenError::Unauthorized));
    assert_eq!(state_data, before);
}

#[test]
fn staking_ops_reject_missing_signature_and_wrong_owner() {
    let admin = id(1);
    let mint = id(2);
    let user = id(3);
    let outsider = id(99);
    let mut state_data = initialized_state(admin, mint);
    let mut stake_data = vec![0u8; 65];
    let r = StakeProcessor::process_stake(&mut state_data, &mut stake_data, &user, false, 10, 5);
    assert_eq!(r, Err(E9thTokenError::Unauthorized));

    StakeProcessor::process_stake(&mut state_data, &mut stake_data, &user, true, 10, 5).unwrap();
    let state_before = state_data.clone();
    let stake_before = stake_data.clone();

    let r = StakeProcessor::process_unstake(&mut state_data, &mut stake_data, &outsider, true);
    assert_eq!(r, Err(E9thTokenError::Unauthorized));
    assert_eq!(state_data, state_before);
    assert_eq!(stake_data, stake_before);

    let r = StakeProcessor::process_claim_rewards(
        &state_data,
        &mut stake_data,
        &outsider,
        true,
        &id(4),
    );
    assert_eq!(r, Err(E9thTokenError::Unauthorized));
    assert_eq!(stake_data, stake_before);
}

#[test]
fn stake_rejects_bad_period_zero_amount_and_missing_buffer() {
    let admin = id(1);
    let mint = id(2);
    let user = id(3);
    let mut state_data = initialized_state(admin, mint);

    let mut stake_data = vec![0u8; 65];
    let r = StakeProcessor::process_stake(&mut state_data, &mut stake_data, &user, true, 10, 0);
    assert_eq!(r, Err(E9thTokenError::InvalidStakePeriod));
    let r = StakeProcessor::process_stake(&mut state_data, &mut stake_data, &user, true, 10, 366);
    assert_eq!(r, Err(E9thTokenError::InvalidStakePeriod));
    let r = StakeProcessor::process_stake(&mut state_data, &mut stake_data, &user, true, 0, 5);
    assert_eq!(r, Err(E9thTokenError::InvalidAmount));

    let mut empty_stake: Vec<u8> = Vec::new();
    let r = StakeProcessor::process_stake(&mut state_data, &mut empty_stake, &user, true, 10, 5);
    assert_eq!(r, Err(E9thTokenError::AccountNotInitialized));

    let mut short_stake = vec![0u8; 10];
    let before = short_stake.clone();
    let r = StakeProcessor::process_stake(&mut state_data, &mut short_stake, &user, true, 10, 5);
    assert_eq!(r, Err(E9thTokenError::InvalidAccountData));
    assert_eq!(short_stake, before);
}

#[test]
fn stake_rejects_when_staking_disabled() {
    let admin = id(1);
    let mint = id(2);
    let user = id(3);
    let mut state_data = initialized_state(admin, mint);
    AdminProcessor::process_update_settings(
        &mut state_data,
        &admin,
        true,
        None,
        None,
        None,
        Some(false),
    )
    .unwrap();
    let mut stake_data = vec![0u8; 65];
    let r = StakeProcessor::process_stake(&mut state_data, &mut stake_data, &user, true, 10, 5);
    assert_eq!(r, Err(E9thTokenError::InvalidStakePeriod));
}

#[test]
fn settings_cross_validation_rejects_without_writing() {
    let admin = id(1);
    let mint = id(2);
    let program_id = id(900);
    let state_key = id(901);
    let mut state_data: Vec<u8> = Vec::new();
    AdminProcessor::process_initialize(
        &program_id,
        &state_key,
        true,
        &mut state_data,
        &admin,
        true,
        &mint,
        1_000_000,
        100,
        1,
        5,
    )
    .unwrap();
    let before = state_data.clone();
    let r = AdminProcessor::process_update_settings(
        &mut state_data,
        &admin,
        true,
        None,
        Some(10),
        None,
        None,
    );
    assert_eq!(r, Err(E9thTokenError::InvalidStakePeriod));
    assert_eq!(state_data, before);
    let st = ProgramState::read_from(&state_data).unwrap();
    assert_eq!(st.min_stake_period, 1);
    assert_eq!(st.max_stake_period, 5);
}

#[test]
fn settings_per_field_bounds() {
    let admin = id(1);
    let mint = id(2);
    let mut state_data = initialized_state(admin, mint);
    let before = state_data.clone();
    let r = AdminProcessor::process_update_settings(
        &mut state_data,
        &admin,
        true,
        None,
        Some(0),
        None,
        None,
    );
    assert_eq!(r, Err(E9thTokenError::StakePeriodTooShort));
    assert_eq!(state_data, before);
    let r = AdminProcessor::process_update_settings(
        &mut state_data,
        &admin,
        true,
        None,
        None,
        Some(366),
        None,
    );
    assert_eq!(r, Err(E9thTokenError::StakePeriodTooLong));
    assert_eq!(state_data, before);
    AdminProcessor::process_update_settings(
        &mut state_data,
        &admin,
        true,
        Some(250),
        Some(2),
        Some(300),
        None,
    )
    .unwrap();
    let st = ProgramState::read_from(&state_data).unwrap();
    assert_eq!(st.reward_rate, 250);
    assert_eq!(st.min_stake_period, 2);
    assert_eq!(st.max_stake_period, 300);
    assert!(st.staking_enabled);
}

#[test]
fn transfer_admin_replaces_identity() {
    let admin = id(1);
    let mint = id(2);
    let new_admin = id(50);
    let mut state_data = initialized_state(admin, mint);
    AdminProcessor::process_transfer_admin(&mut state_data, &admin, true, new_admin).unwrap();
    let st = ProgramState::read_from(&state_data).unwrap();
    assert_eq!(st.admin, new_admin);

    let r = AdminProcessor::process_transfer_admin(&mut state_data, &admin, true, id(51));
    assert_eq!(r, Err(E9thTokenError::InvalidAdmin));
}

#[test]
fn processor_routes_legacy_burn_end_to_end() {
    let program_id = id(900);
    let admin = id(1);
    let mint = id(2);
    let source = id(7);
    let token_program = id(5);
    let state_data = initialized_state(admin, mint);

    let account = |key: Identity, signer: bool, data: Vec<u8>| Account {
        key,
        owner: program_id,
        is_signer: signer,
        is_writable: true,
        data,
    };
    let mut accounts = vec![
        account(id(901), false, state_data),
        account(admin, true, Vec::new()),
        account(mint, false, Vec::new()),
        account(source, false, Vec::new()),
        account(token_program, false, Vec::new()),
    ];
    let data = E9thTokenInstruction::Burn { amount: 250 }.pack();
    let action = Processor::process(&program_id, &mut accounts, &data).unwrap();
    assert_eq!(
        action,
        LedgerAction::BurnTokens { token_program, source, mint, authority: admin, amount: 250 }
    );
    let st = ProgramState::read_from(&accounts[0].data).unwrap();
    assert_eq!(st.total_supply, 999_750);
}

#[test]
fn processor_routes_legacy_initialize_end_to_end() {
    let program_id = id(900);
    let admin = id(1);
    let mint = id(2);
    let account = |key: Identity, signer: bool| Account {
        key,
        owner: program_id,
        is_signer: signer,
        is_writable: true,
        data: Vec::new(),
    };
    let mut accounts = vec![
        account(id(901), false),
        account(admin, true),
        account(mint, false),
        account(id(800), false),
        account(id(801), false),
    ];
    let data = E9thTokenInstruction::Initialize {
        total_supply: 777,
        reward_rate: 50,
        min_stake_period: 2,
        max_stake_period: 100,
    }
    .pack();
    let action = Processor::process(&program_id, &mut accounts, &data).unwrap();
    assert_eq!(
        action,
        LedgerAction::CreateStateAccount {
            funder: admin,
            address: id(901),
            owner: program_id,
            space: 100,
        }
    );
    let st = ProgramState::read_from(&accounts[0].data).unwrap();
    assert_eq!(st.total_supply, 777);
    assert_eq!(st.reward_rate, 50);
}

#[test]
fn processor_accepts_current_dialect_as_noop() {
    // The legacy mint's opcode byte collides with the current dialect's
    // pause instruction, so its bytes route to the current dialect's
    // handler, which accepts and does nothing in this build.
    let program_id = id(900);
    let mut accounts: Vec<Account> = Vec::new();
    let data = E9thTokenInstruction::Mint { amount: 250 }.pack();
    let r = Processor::process(&program_id, &mut accounts, &data);
    assert_eq!(r, Ok(LedgerAction::NoEffect));
}

#[test]
fn airdrop_with_mismatched_runs_is_rejected() {
    let program_id = id(900);
    let mut accounts: Vec<Account> = Vec::new();
    let data = E9thInstruction::Airdrop { recipients: vec![id(1)], amounts: vec![1, 2] }.pack();
    let r = Processor::process(&program_id, &mut accounts, &data);
    assert_eq!(r, Err(E9thTokenError::InvalidInstruction));

    let data = E9thInstruction::Airdrop { recipients: vec![id(1)], amounts: vec![7] }.pack();
    let r = Processor::process(&program_id, &mut accounts, &data);
    assert_eq!(r, Ok(LedgerAction::NoEffect));
}

#[test]
fn processor_rejects_undecodable_payload() {
    let program_id = id(900);
    let mut accounts: Vec<Account> = Vec::new();
    let r = Processor::process(&program_id, &mut accounts, &[200u8, 1, 2]);
    assert_eq!(r, Err(E9thTokenError::InvalidInstruction));
}

#[test]
fn processor_rejects_missing_accounts() {
    let program_id = id(900);
    let mut accounts: Vec<Account> = Vec::new();
    let data = E9thTokenInstruction::Burn { amount: 250 }.pack();
    let r = Processor::process(&program_id, &mut accounts, &data);
    assert_eq!(r, Err(E9thTokenError::InvalidAccountData));
}

#[test]
fn pda_lookup_is_deterministic() {
    let program_id = id(900);
    let user = id(3);
    let a = StakeProcessor::get_stake_account_pda(&program_id, &user, &[1, 2, 3]).unwrap();
    let b = StakeProcessor::get_stake_account_pda(&program_id, &user, &[1, 2, 3]).unwrap();
    assert_eq!(a, b);
    assert_ne!(a.0, user);
    assert_ne!(a.0, program_id);

    let c = StakeProcessor::get_program_state_pda(&program_id).unwrap();
    let d = StakeProcessor::get_program_state_pda(&program_id).unwrap();
    assert_eq!(c, d);
    assert_ne!(c.0, program_id);
    assert_ne!(a.0, c.0);
}

#[test]
fn clock_oracle_is_fixed_in_this_build() {
    assert_eq!(get_current_epoch(), 100);
    assert_eq!(get_current_timestamp(), 1640995200);
}

#[test]
fn account_helpers_follow_the_flags() {
    let accounts = vec![
        Account { key: id(1), owner: id(9), is_signer: true, is_writable: false, data: vec![7] },
        Account { key: id(2), owner: id(9), is_signer: false, is_writable: true, data: vec![] },
    ];
    assert_eq!(get_program_state_account(&accounts, 0).unwrap().key, id(1));
    assert_eq!(
        get_program_state_account(&accounts, 2).unwrap_err(),
        E9thTokenError::InvalidAccountData
    );
    assert_eq!(get_signer_account(&accounts, 0).unwrap().key, id(1));
    assert_eq!(get_signer_account(&accounts, 1).unwrap_err(), E9thTokenError::Unauthorized);
    assert_eq!(get_writable_account(&accounts, 1).unwrap().key, id(2));
    assert_eq!(
        get_writable_account(&accounts, 0).unwrap_err(),
        E9thTokenError::InvalidAccountData
    );
    assert!(validate_account_owner(&accounts[0], &id(9)).is_ok());
    assert_eq!(
        validate_account_owner(&accounts[0], &id(8)).unwrap_err(),
        E9thTokenError::InvalidAccountOwner
    );
}

#[test]
fn generic_record_serialization_overwrites_the_prefix() {
    let st = ProgramState::new(id(1), id(2), 0);
    // A buffer longer than the record keeps its tail.
    let mut buffer = vec![0xAAu8; 103];
    serialize_account_data(&mut buffer, &st).unwrap();
    assert_eq!(buffer.len(), 103);
    assert_eq!(&buffer[100..], &[0xAA, 0xAA, 0xAA]);
    let back: ProgramState = deserialize_account_data(&buffer[..100]).unwrap();
    assert_eq!(back, st);
    // A buffer shorter than the record is refused untouched.
    let mut short = vec![0xAAu8; 99];
    let r = serialize_account_data(&mut short, &st);
    assert_eq!(r, Err(E9thTokenError::InvalidAccountData));
    assert_eq!(short, vec![0xAAu8; 99]);
}

#[test]
fn error_codes_follow_declaration_order() {
    assert_eq!(E9thTokenError::InvalidInstruction.error_code(), 0);
    assert_eq!(E9thTokenError::InvalidAccountData.error_code(), 2);
    assert_eq!(E9thTokenError::AccountAlreadyInitialized.error_code(), 5);
    assert_eq!(E9thTokenError::StakeNotMature.error_code(), 11);
    assert_eq!(E9thTokenError::Unauthorized.error_code(), 12);
    assert_eq!(E9thTokenError::InvalidAdmin.error_code(), 13);
    assert_eq!(E9thTokenError::InvalidAmount.error_code(), 15);
    assert_eq!(E9thTokenError::RewardCalculationFailed.error_code(), 18);
}
