//! Tests of the instruction codec, the records and the reward engine.

use e9th_token_program::state::AccountRecord;
use e9th_token_program::{
    Blacklist, E9thInstruction, E9thTokenInstruction, Identity, StakeAccount, StakeEntry,
    TokenConfig,
};

fn id(n: u64) -> Identity {
    Identity { w0: n, w1: n.wrapping_mul(7), w2: n.wrapping_add(13), w3: n ^ 0xABCD }
}

#[test]
fn test_instruction_packing() {
    let instruction = E9thTokenInstruction::Initialize {
        total_supply: 1_000_000,
        reward_rate: 100,
        min_stake_period: 1,
        max_stake_period: 365,
    };

    let packed = instruction.pack();
    let unpacked = E9thTokenInstruction::unpack(&packed).unwrap();

    match unpacked {
        E9thTokenInstruction::Initialize {
            total_supply,
            reward_rate,
            min_stake_period,
            max_stake_period,
        } => {
            assert_eq!(total_supply, 1_000_000);
            assert_eq!(reward_rate, 100);
            assert_eq!(min_stake_period, 1);
            assert_eq!(max_stake_period, 365);
        }
        _ => panic!("Wrong instruction type"),
    }
}

#[test]
fn test_stake_account_serialization() {
    let user = id(1);
    let stake_account = StakeAccount::new(user, 1000, 30, 100, 0);

    let serialized = stake_account.to_bytes();
    let deserialized = StakeAccount::read_from(&serialized).unwrap();

    assert_eq!(stake_account.owner, deserialized.owner);
    assert_eq!(stake_account.amount, deserialized.amount);
    assert_eq!(stake_account.period, deserialized.period);
}

#[test]
fn test_reward_calculation() {
    let user = id(2);
    let stake_account = StakeAccount::new(user, 1000, 30, 100, 0);

    let rewards = stake_account.calculate_rewards(130, 100);
    assert_eq!(rewards, 300);

    let rewards = stake_account.calculate_rewards(100, 100);
    assert_eq!(rewards, 0);

    let rewards = stake_account.calculate_rewards(90, 100);
    assert_eq!(rewards, 0);
}

#[test]
fn test_enhanced_instruction_packing() {
    let owner = id(3);
    let operator = id(4);
    let treasury = id(5);

    let instruction = E9thInstruction::Initialize {
        owner,
        operator,
        treasury,
        burn_rate_basis_points: 100,
    };

    let packed = instruction.pack();
    let unpacked = E9thInstruction::unpack(&packed).unwrap();

    match unpacked {
        E9thInstruction::Initialize {
            owner: unpacked_owner,
            operator: unpacked_operator,
            treasury: unpacked_treasury,
            burn_rate_basis_points,
        } => {
            assert_eq!(unpacked_owner, owner);
            assert_eq!(unpacked_operator, operator);
            assert_eq!(unpacked_treasury, treasury);
            assert_eq!(burn_rate_basis_points, 100);
        }
        _ => panic!("Wrong instruction type"),
    }
}

#[test]
fn test_blacklist_functionality() {
    let mut blacklist = Blacklist::new(0);
    let account1 = id(6);
    let account2 = id(7);

    blacklist.add_account(account1);
    blacklist.add_account(account2);

    assert!(blacklist.is_blacklisted(&account1));
    assert!(blacklist.is_blacklisted(&account2));

    blacklist.remove_account(&account1);
    assert!(!blacklist.is_blacklisted(&account1));
    assert!(blacklist.is_blacklisted(&account2));
}

#[test]
fn test_enhanced_stake_entry() {
    let staker = id(8);
    let current_timestamp = 1640995200;
    let lock_time = current_timestamp + 86400;

    let stake_entry = StakeEntry::new(staker, 1000, 30, 100, lock_time, 0);

    assert!(!stake_entry.is_mature(100));
    assert!(!stake_entry.is_mature(129));
    assert!(stake_entry.is_mature(130));

    assert!(!stake_entry.is_unlocked(current_timestamp));
    assert!(stake_entry.is_unlocked(lock_time));
    assert!(stake_entry.is_unlocked(lock_time + 1));

    let rewards = stake_entry.calculate_rewards(current_timestamp + 3600, 100);
    assert!(rewards == 0 || rewards > 0);
}

#[test]
fn test_token_config() {
    let owner = id(9);
    let operator = id(10);
    let treasury = id(11);
    let mint = id(12);

    let config = TokenConfig::new(owner, operator, treasury, mint, 100, 0);

    assert_eq!(config.owner, owner);
    assert_eq!(config.operator, operator);
    assert_eq!(config.treasury, treasury);
    assert_eq!(config.mint, mint);
    assert_eq!(config.burn_rate_basis_points, 100);
    assert!(!config.is_paused);
    assert!(config.staking_enabled);
}
