//! Byte-level tests of the two instruction dialects, the unified decode and
//! the account codec.

use e9th_token_program::instruction::decode_instruction;
use e9th_token_program::state::AccountRecord;
use e9th_token_program::{
    Blacklist, E9thInstruction, E9thTokenError, E9thTokenInstruction, Identity, ProgramState,
    StakeAccount, StakeEntry, TokenConfig,
};

fn id(n: u64) -> Identity {
    Identity { w0: n, w1: 2 * n, w2: 3 * n, w3: 4 * n }
}

#[test]
fn legacy_variants_round_trip() {
    let cases = vec![
        E9thTokenInstruction::Initialize {
            total_supply: 42,
            reward_rate: 7,
            min_stake_period: 1,
            max_stake_period: 300,
        },
        E9thTokenInstruction::Mint { amount: 9 },
        E9thTokenInstruction::Burn { amount: u64::MAX },
        E9thTokenInstruction::Stake { amount: 5, period: 10 },
        E9thTokenInstruction::Unstake,
        E9thTokenInstruction::ClaimRewards,
        E9thTokenInstruction::UpdateSettings {
            reward_rate: Some(250),
            min_stake_period: None,
            max_stake_period: Some(365),
            staking_enabled: Some(false),
        },
        E9thTokenInstruction::UpdateSettings {
            reward_rate: None,
            min_stake_period: None,
            max_stake_period: None,
            staking_enabled: None,
        },
        E9thTokenInstruction::TransferAdmin { new_admin: id(11) },
    ];
    for case in cases {
        let packed = case.pack();
        assert_eq!(E9thTokenInstruction::unpack(&packed), Ok(case));
    }
}

#[test]
fn enhanced_variants_round_trip() {
    let cases = vec![
        E9thInstruction::Initialize {
            owner: id(1),
            operator: id(2),
            treasury: id(3),
            burn_rate_basis_points: 77,
        },
        E9thInstruction::SetPause { pause: true },
        E9thInstruction::SetPause { pause: false },
        E9thInstruction::ModifyBlacklist { account: id(4), add: true },
        E9thInstruction::Transfer { amount: 123 },
        E9thInstruction::Airdrop {
            recipients: vec![id(5), id(6)],
            amounts: vec![10, 20, 30],
        },
        E9thInstruction::Airdrop { recipients: vec![], amounts: vec![] },
        E9thInstruction::Stake { amount: 55 },
        E9thInstruction::Unstake { amount: 66 },
        E9thInstruction::ClaimRewards,
    ];
    for case in cases {
        let packed = case.pack();
        assert_eq!(E9thInstruction::unpack(&packed), Ok(case));
    }
}

#[test]
fn unified_decode_falls_back_to_legacy() {
    let legacy = E9thTokenInstruction::Initialize {
        total_supply: 1_000_000,
        reward_rate: 100,
        min_stake_period: 1,
        max_stake_period: 365,
    };
    let packed = legacy.pack();
    assert!(E9thInstruction::unpack(&packed).is_err());
    let decoded = decode_instruction(&packed).unwrap();
    assert_eq!(
        decoded,
        E9thInstruction::LegacyInitialize {
            total_supply: 1_000_000,
            reward_rate: 100,
            min_stake_period: 1,
            max_stake_period: 365,
        }
    );

    let packed = E9thTokenInstruction::Unstake.pack();
    assert_eq!(decode_instruction(&packed).unwrap(), E9thInstruction::LegacyUnstake);

    let packed = E9thTokenInstruction::ClaimRewards.pack();
    assert_eq!(decode_instruction(&packed).unwrap(), E9thInstruction::LegacyClaimRewards);

    let packed = E9thTokenInstruction::Burn { amount: 3 }.pack();
    assert_eq!(decode_instruction(&packed).unwrap(), E9thInstruction::LegacyBurn { amount: 3 });
}

#[test]
fn unified_decode_prefers_the_current_dialect() {
    // The legacy mint's opcode byte collides with the current dialect's
    // pause instruction, so the current dialect wins the decode.
    let packed = E9thTokenInstruction::Mint { amount: 5 }.pack();
    assert_eq!(decode_instruction(&packed).unwrap(), E9thInstruction::SetPause { pause: true });

    // The legacy admin transfer collides with the current claim.
    let packed = E9thTokenInstruction::TransferAdmin { new_admin: id(9) }.pack();
    assert_eq!(decode_instruction(&packed).unwrap(), E9thInstruction::ClaimRewards);
}

#[test]
fn settings_payload_reads_sparse_fields_in_any_order() {
    // rate 300, then min 2: [tag 0][2c 01][tag 1][02 x7]
    let mut data = vec![6u8, 0, 0x2C, 0x01, 1, 2, 0, 0, 0, 0, 0, 0, 0];
    let decoded = E9thTokenInstruction::unpack(&data).unwrap();
    assert_eq!(
        decoded,
        E9thTokenInstruction::UpdateSettings {
            reward_rate: Some(300),
            min_stake_period: Some(2),
            max_stake_period: None,
            staking_enabled: None,
        }
    );

    // A later duplicate of a field overwrites the earlier one.
    data = vec![6u8, 0, 0x2C, 0x01, 0, 0x58, 0x02];
    let decoded = E9thTokenInstruction::unpack(&data).unwrap();
    assert_eq!(
        decoded,
        E9thTokenInstruction::UpdateSettings {
            reward_rate: Some(600),
            min_stake_period: None,
            max_stake_period: None,
            staking_enabled: None,
        }
    );

    // An unknown field tag fails the whole payload.
    data = vec![6u8, 9];
    assert_eq!(
        E9thTokenInstruction::unpack(&data),
        Err(E9thTokenError::InvalidInstruction)
    );

    // A truncated field value fails the whole payload.
    data = vec![6u8, 1, 1, 2];
    assert_eq!(
        E9thTokenInstruction::unpack(&data),
        Err(E9thTokenError::InvalidInstruction)
    );
}

#[test]
fn short_buffers_fail_to_decode() {
    assert_eq!(
        E9thTokenInstruction::unpack(&[]),
        Err(E9thTokenError::InvalidInstruction)
    );
    assert_eq!(
        E9thTokenInstruction::unpack(&[0u8, 1, 2]),
        Err(E9thTokenError::InvalidInstruction)
    );
    assert_eq!(
        E9thInstruction::unpack(&[0u8; 50]),
        Err(E9thTokenError::InvalidInstruction)
    );
    assert_eq!(
        E9thInstruction::unpack(&[2u8; 20]),
        Err(E9thTokenError::InvalidInstruction)
    );
    assert_eq!(decode_instruction(&[]), Err(E9thTokenError::InvalidInstruction));
    // An airdrop whose declared counts overrun the buffer is rejected.
    let mut bad = vec![4u8];
    bad.extend_from_slice(&1000u64.to_le_bytes());
    assert_eq!(E9thInstruction::unpack(&bad), Err(E9thTokenError::InvalidInstruction));
}

#[test]
fn program_state_codec_round_trips_and_rejects_malformed() {
    let st = ProgramState::new(id(1), id(2), 3);
    let bytes = st.to_bytes();
    assert_eq!(bytes.len(), 100);
    assert_eq!(ProgramState::read_from(&bytes), Ok(st));

    let short = vec![0u8; 99];
    assert_eq!(
        ProgramState::read_from(&short),
        Err(E9thTokenError::InvalidAccountData)
    );
    let mut bad_bool = bytes.clone();
    bad_bool[72] = 2;
    assert_eq!(
        ProgramState::read_from(&bad_bool),
        Err(E9thTokenError::InvalidAccountData)
    );
}

#[test]
fn stake_account_codec_round_trips_and_rejects_malformed() {
    let sa = StakeAccount::new(id(1), 5, 6, 7, 8);
    let bytes = sa.to_bytes();
    assert_eq!(bytes.len(), 65);
    assert_eq!(StakeAccount::read_from(&bytes), Ok(sa));
    assert_eq!(
        StakeAccount::read_from(&bytes[..64]),
        Err(E9thTokenError::InvalidAccountData)
    );
}

#[test]
fn token_config_codec_round_trips_and_rejects_malformed() {
    let c = TokenConfig::new(id(1), id(2), id(3), id(4), 123, 9);
    let bytes = c.to_bytes();
    assert_eq!(bytes.len(), 167);
    assert_eq!(TokenConfig::read_from(&bytes), Ok(c));
    let mut bad = bytes.clone();
    bad[96] = 7;
    assert_eq!(
        TokenConfig::read_from(&bad),
        Err(E9thTokenError::InvalidAccountData)
    );
}

#[test]
fn stake_entry_codec_round_trips() {
    let e = StakeEntry::new(id(1), 1000, 30, 100, 7777, 3);
    let bytes = e.to_bytes();
    assert_eq!(bytes.len(), 81);
    assert_eq!(StakeEntry::read_from(&bytes), Ok(e));
    assert_eq!(
        StakeEntry::read_from(&bytes[..80]),
        Err(E9thTokenError::InvalidAccountData)
    );
}

#[test]
fn blacklist_codec_round_trips() {
    let mut b = Blacklist::new(5);
    b.add_account(id(1));
    b.add_account(id(2));
    let bytes = b.to_bytes();
    assert_eq!(bytes.len(), 5 + 64);
    let back = Blacklist::read_from(&bytes).unwrap();
    assert_eq!(back, b);

    let empty = Blacklist::new(0);
    let bytes = empty.to_bytes();
    assert_eq!(bytes.len(), 5);
    assert_eq!(Blacklist::read_from(&bytes).unwrap(), empty);

    assert_eq!(
        Blacklist::read_from(&bytes[..4]),
        Err(E9thTokenError::InvalidAccountData)
    );
}

#[test]
fn time_based_rewards_accrue_per_second() {
    // 315_360_000_000 tokens at 100 basis points accrue exactly
    // 315_360_000_000 * 100 / 315_360_000_000 = 100 per second.
    let e = StakeEntry::new(id(1), 315_360_000_000, 30, 100, 0, 0);
    assert_eq!(e.calculate_rewards(10, 100), 1000);
    // Nothing accrues at or before the last reward timestamp.
    assert_eq!(e.calculate_rewards(0, 100), 0);
    // Claims are subtracted from the payable amount.
    let mut claimed = e;
    claimed.rewards_claimed = 400;
    assert_eq!(claimed.calculate_rewards(10, 100), 600);
    let mut over_claimed = e;
    over_claimed.rewards_claimed = 5000;
    assert_eq!(over_claimed.calculate_rewards(10, 100), 0);
}

#[test]
fn epoch_rewards_monotonic_in_period_once_mature() {
    let s20 = StakeAccount::new(id(1), 1000, 20, 100, 0);
    let s30 = StakeAccount::new(id(1), 1000, 30, 100, 0);
    // Both stakes are mature at epoch 140; the longer period pays at least
    // as much.
    assert_eq!(s20.calculate_rewards(140, 100), 200);
    assert_eq!(s30.calculate_rewards(140, 100), 300);
    assert!(s20.calculate_rewards(140, 100) <= s30.calculate_rewards(140, 100));
    // Before maturity the payable reward is exactly zero.
    assert_eq!(s30.calculate_rewards(129, 100), 0);
}

#[test]
fn epoch_rewards_saturate_instead_of_wrapping() {
    // The full 64-bit supply at the maximum rate over the maximum period
    // overflows even a doubled domain; the result stops at the 64-bit
    // maximum instead of wrapping.
    let s = StakeAccount::new(id(1), u64::MAX, u64::MAX, 0, 0);
    assert_eq!(s.calculate_rewards(u64::MAX, u16::MAX), u64::MAX);
}
