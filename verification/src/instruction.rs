//! The two instruction dialects and their byte codec.
//!
//! An instruction is one opcode byte followed by a tag-specific payload,
//! multi-byte integers little-endian. Two tag spaces exist: the current
//! dialect ([`E9thInstruction`]) and the legacy one ([`E9thTokenInstruction`]).
//! A unified decode tries the current dialect first and falls back to the
//! legacy one; encoding is the exact left-inverse of decoding wherever the
//! two tag spaces do not collide (see the round-trip lemmas at the bottom).

use crate::error::E9thTokenError;
use crate::identity::{
    ids_bytes, lemma_bytes_len, lemma_identity_round_trip, lemma_ids_bytes_len,
    lemma_ids_round_trip, read_ids, spec_ids, write_ids, Identity,
};
use crate::wire::{
    bool_byte, bool_to_byte, lemma_le_round_trips, lemma_u64s_bytes_len, lemma_u64s_round_trip,
    push_u16_le, push_u64_le, read_u16_at, read_u64_at, read_u64s, spec_u64s, u64s_bytes,
    write_u64s,
};
use vstd::bytes::{spec_u16_from_le_bytes, spec_u16_to_le_bytes, spec_u64_from_le_bytes,
    spec_u64_to_le_bytes};
use vstd::prelude::*;

verus! {

/// Instructions of the current dialect, plus the legacy instructions under
/// `Legacy` names so that one command type covers both tag spaces.
#[derive(Clone, Debug, PartialEq, Eq)]
pub enum E9thInstruction {
    /// Initialize the enhanced config account.
    Initialize { owner: Identity, operator: Identity, treasury: Identity, burn_rate_basis_points: u16 },
    /// Pause or unpause token transfers.
    SetPause { pause: bool },
    /// Add to or remove from the blacklist.
    ModifyBlacklist { account: Identity, add: bool },
    /// Transfer tokens, applying the burn rate.
    Transfer { amount: u64 },
    /// Airdrop to several accounts at once.
    Airdrop { recipients: Vec<Identity>, amounts: Vec<u64> },
    /// Stake tokens.
    Stake { amount: u64 },
    /// Unstake tokens.
    Unstake { amount: u64 },
    /// Claim staking rewards.
    ClaimRewards,
    /// Legacy initialize.
    LegacyInitialize { total_supply: u64, reward_rate: u16, min_stake_period: u64, max_stake_period: u64 },
    /// Legacy mint.
    LegacyMint { amount: u64 },
    /// Legacy burn.
    LegacyBurn { amount: u64 },
    /// Legacy stake.
    LegacyStake { amount: u64, period: u64 },
    /// Legacy unstake.
    LegacyUnstake,
    /// Legacy claim rewards.
    LegacyClaimRewards,
    /// Legacy sparse settings update.
    LegacyUpdateSettings {
        reward_rate: Option<u16>,
        min_stake_period: Option<u64>,
        max_stake_period: Option<u64>,
        staking_enabled: Option<bool>,
    },
    /// Legacy admin transfer.
    LegacyTransferAdmin { new_admin: Identity },
}

/// The mathematical value of an [`E9thInstruction`]: the same variants with
/// the airdrop vectors abstracted to sequences.
pub enum E9thInstructionView {
    Initialize { owner: Identity, operator: Identity, treasury: Identity, burn_rate_basis_points: u16 },
    SetPause { pause: bool },
    ModifyBlacklist { account: Identity, add: bool },
    Transfer { amount: u64 },
    Airdrop { recipients: Seq<Identity>, amounts: Seq<u64> },
    Stake { amount: u64 },
    Unstake { amount: u64 },
    ClaimRewards,
    LegacyInitialize { total_supply: u64, reward_rate: u16, min_stake_period: u64, max_stake_period: u64 },
    LegacyMint { amount: u64 },
    LegacyBurn { amount: u64 },
    LegacyStake { amount: u64, period: u64 },
    LegacyUnstake,
    LegacyClaimRewards,
    LegacyUpdateSettings {
        reward_rate: Option<u16>,
        min_stake_period: Option<u64>,
        max_stake_period: Option<u64>,
        staking_enabled: Option<bool>,
    },
    LegacyTransferAdmin { new_admin: Identity },
}

impl View for E9thInstruction {
    type V = E9thInstructionView;

    open spec fn view(&self) -> E9thInstructionView {
        match self {
            E9thInstruction::Initialize { owner, operator, treasury, burn_rate_basis_points } => (
            E9thInstructionView::Initialize {
                owner: *owner,
                operator: *operator,
                treasury: *treasury,
                burn_rate_basis_points: *burn_rate_basis_points,
            }),
            E9thInstruction::SetPause { pause } => (E9thInstructionView::SetPause {
                pause: *pause,
            }),
            E9thInstruction::ModifyBlacklist { account, add } => (
            E9thInstructionView::ModifyBlacklist { account: *account, add: *add }),
            E9thInstruction::Transfer { amount } => (E9thInstructionView::Transfer {
                amount: *amount,
            }),
            E9thInstruction::Airdrop { recipients, amounts } => (E9thInstructionView::Airdrop {
                recipients: recipients@,
                amounts: amounts@,
            }),
            E9thInstruction::Stake { amount } => (E9thInstructionView::Stake { amount: *amount }),
            E9thInstruction::Unstake { amount } => (E9thInstructionView::Unstake {
                amount: *amount,
            }),
            E9thInstruction::ClaimRewards => E9thInstructionView::ClaimRewards,
            E9thInstruction::LegacyInitialize {
                total_supply,
                reward_rate,
                min_stake_period,
                max_stake_period,
            } => (E9thInstructionView::LegacyInitialize {
                total_supply: *total_supply,
                reward_rate: *reward_rate,
                min_stake_period: *min_stake_period,
                max_stake_period: *max_stake_period,
            }),
            E9thInstruction::LegacyMint { amount } => (E9thInstructionView::LegacyMint {
                amount: *amount,
            }),
            E9thInstruction::LegacyBurn { amount } => (E9thInstructionView::LegacyBurn {
                amount: *amount,
            }),
            E9thInstruction::LegacyStake { amount, period } => (E9thInstructionView::LegacyStake {
                amount: *amount,
                period: *period,
            }),
            E9thInstruction::LegacyUnstake => E9thInstructionView::LegacyUnstake,
            E9thInstruction::LegacyClaimRewards => E9thInstructionView::LegacyClaimRewards,
            E9thInstruction::LegacyUpdateSettings {
                reward_rate,
                min_stake_period,
                max_stake_period,
                staking_enabled,
            } => (E9thInstructionView::LegacyUpdateSettings {
                reward_rate: *reward_rate,
                min_stake_period: *min_stake_period,
                max_stake_period: *max_stake_period,
                staking_enabled: *staking_enabled,
            }),
            E9thInstruction::LegacyTransferAdmin { new_admin } => (
            E9thInstructionView::LegacyTransferAdmin { new_admin: *new_admin }),
        }
    }
}

/// Instructions of the legacy dialect.
#[derive(Clone, Copy, Debug, PartialEq, Eq, Structural)]
pub enum E9thTokenInstruction {
    /// Initialize the program state.
    Initialize { total_supply: u64, reward_rate: u16, min_stake_period: u64, max_stake_period: u64 },
    /// Mint tokens to a user.
    Mint { amount: u64 },
    /// Burn tokens from a user.
    Burn { amount: u64 },
    /// Stake tokens.
    Stake { amount: u64, period: u64 },
    /// Unstake tokens.
    Unstake,
    /// Claim rewards.
    ClaimRewards,
    /// Sparse settings update: only the present fields are applied.
    UpdateSettings {
        reward_rate: Option<u16>,
        min_stake_period: Option<u64>,
        max_stake_period: Option<u64>,
        staking_enabled: Option<bool>,
    },
    /// Transfer admin authority.
    TransferAdmin { new_admin: Identity },
}

/// The payload of a sparse settings update: for each present field, its tag
/// byte followed by its value.
pub open spec fn settings_bytes(
    reward_rate: Option<u16>,
    min_stake_period: Option<u64>,
    max_stake_period: Option<u64>,
    staking_enabled: Option<bool>,
) -> Seq<u8> {
    (match reward_rate {
        Some(v) => seq![0u8] + spec_u16_to_le_bytes(v),
        None => Seq::empty(),
    }) + (match min_stake_period {
        Some(v) => seq![1u8] + spec_u64_to_le_bytes(v),
        None => Seq::empty(),
    }) + (match max_stake_period {
        Some(v) => seq![2u8] + spec_u64_to_le_bytes(v),
        None => Seq::empty(),
    }) + (match staking_enabled {
        Some(v) => seq![3u8, bool_byte(v)],
        None => Seq::empty(),
    })
}

/// Reads a sparse settings payload: a sequence of (field tag, value) pairs,
/// later pairs overwriting earlier ones, an unknown tag or a short value
/// failing the whole payload.
pub open spec fn read_settings(
    data: Seq<u8>,
    reward_rate: Option<u16>,
    min_stake_period: Option<u64>,
    max_stake_period: Option<u64>,
    staking_enabled: Option<bool>,
) -> Option<(Option<u16>, Option<u64>, Option<u64>, Option<bool>)>
    decreases data.len(),
{
    if data.len() == 0 {
        Some((reward_rate, min_stake_period, max_stake_period, staking_enabled))
    } else {
        let tag = data[0];
        let rest = data.skip(1);
        if tag == 0 {
            if rest.len() >= 2 {
                read_settings(
                    rest.skip(2),
                    Some(spec_u16_from_le_bytes(rest.subrange(0, 2))),
                    min_stake_period,
                    max_stake_period,
                    staking_enabled,
                )
            } else {
                None
            }
        } else if tag == 1 {
            if rest.len() >= 8 {
                read_settings(
                    rest.skip(8),
                    reward_rate,
                    Some(spec_u64_from_le_bytes(rest.subrange(0, 8))),
                    max_stake_period,
                    staking_enabled,
                )
            } else {
                None
            }
        } else if tag == 2 {
            if rest.len() >= 8 {
                read_settings(
                    rest.skip(8),
                    reward_rate,
                    min_stake_period,
                    Some(spec_u64_from_le_bytes(rest.subrange(0, 8))),
                    staking_enabled,
                )
            } else {
                None
            }
        } else if tag == 3 {
            if rest.len() >= 1 {
                read_settings(
                    rest.skip(1),
                    reward_rate,
                    min_stake_period,
                    max_stake_period,
                    Some(rest[0] != 0),
                )
            } else {
                None
            }
        } else {
            None
        }
    }
}

impl E9thTokenInstruction {
    /// The instruction's canonical encoding.
    pub open spec fn spec_pack(self) -> Seq<u8> {
        match self {
            E9thTokenInstruction::Initialize {
                total_supply,
                reward_rate,
                min_stake_period,
                max_stake_period,
            } => seq![0u8] + spec_u64_to_le_bytes(total_supply) + spec_u16_to_le_bytes(reward_rate)
                + spec_u64_to_le_bytes(min_stake_period) + spec_u64_to_le_bytes(max_stake_period),
            E9thTokenInstruction::Mint { amount } => seq![1u8] + spec_u64_to_le_bytes(amount),
            E9thTokenInstruction::Burn { amount } => seq![2u8] + spec_u64_to_le_bytes(amount),
            E9thTokenInstruction::Stake { amount, period } => seq![3u8] + spec_u64_to_le_bytes(
                amount,
            ) + spec_u64_to_le_bytes(period),
            E9thTokenInstruction::Unstake => seq![4u8],
            E9thTokenInstruction::ClaimRewards => seq![5u8],
            E9thTokenInstruction::UpdateSettings {
                reward_rate,
                min_stake_period,
                max_stake_period,
                staking_enabled,
            } => seq![6u8] + settings_bytes(
                reward_rate,
                min_stake_period,
                max_stake_period,
                staking_enabled,
            ),
            E9thTokenInstruction::TransferAdmin { new_admin } => seq![7u8] + new_admin.bytes(),
        }
    }

    /// The instruction that `data` decodes to under the legacy dialect, if
    /// any; payload bytes beyond what the tag needs are ignored.
    pub open spec fn spec_unpack(data: Seq<u8>) -> Option<E9thTokenInstruction> {
        if data.len() < 1 {
            None
        } else {
            let tag = data[0];
            let rest = data.skip(1);
            if tag == 0 {
                if rest.len() >= 26 {
                    Some(
                        E9thTokenInstruction::Initialize {
                            total_supply: spec_u64_from_le_bytes(rest.subrange(0, 8)),
                            reward_rate: spec_u16_from_le_bytes(rest.subrange(8, 10)),
                            min_stake_period: spec_u64_from_le_bytes(rest.subrange(10, 18)),
                            max_stake_period: spec_u64_from_le_bytes(rest.subrange(18, 26)),
                        },
                    )
                } else {
                    None
                }
            } else if tag == 1 {
                if rest.len() >= 8 {
                    Some(
                        E9thTokenInstruction::Mint {
                            amount: spec_u64_from_le_bytes(rest.subrange(0, 8)),
                        },
                    )
                } else {
                    None
                }
            } else if tag == 2 {
                if rest.len() >= 8 {
                    Some(
                        E9thTokenInstruction::Burn {
                            amount: spec_u64_from_le_bytes(rest.subrange(0, 8)),
                        },
                    )
                } else {
                    None
                }
            } else if tag == 3 {
                if rest.len() >= 16 {
                    Some(
                        E9thTokenInstruction::Stake {
                            amount: spec_u64_from_le_bytes(rest.subrange(0, 8)),
                            period: spec_u64_from_le_bytes(rest.subrange(8, 16)),
                        },
                    )
                } else {
                    None
                }
            } else if tag == 4 {
                Some(E9thTokenInstruction::Unstake)
            } else if tag == 5 {
                Some(E9thTokenInstruction::ClaimRewards)
            } else if tag == 6 {
                match read_settings(rest, None, None, None, None) {
                    Some(fields) => Some(
                        E9thTokenInstruction::UpdateSettings {
                            reward_rate: fields.0,
                            min_stake_period: fields.1,
                            max_stake_period: fields.2,
                            staking_enabled: fields.3,
                        },
                    ),
                    None => None,
                }
            } else if tag == 7 {
                if rest.len() >= 32 {
                    Some(
                        E9thTokenInstruction::TransferAdmin {
                            new_admin: Identity::spec_from_bytes(rest.subrange(0, 32)),
                        },
                    )
                } else {
                    None
                }
            } else {
                None
            }
        }
    }

    /// Decodes a byte buffer under the legacy dialect.
    pub fn unpack(input: &[u8]) -> (r: Result<E9thTokenInstruction, E9thTokenError>)
        ensures
            match E9thTokenInstruction::spec_unpack(input@) {
                Some(v) => r == Ok::<E9thTokenInstruction, E9thTokenError>(v),
                None => r == Err::<E9thTokenInstruction, E9thTokenError>(
                    E9thTokenError::InvalidInstruction,
                ),
            },
    {
        let n = input.len();
        if n < 1 {
            return Err(E9thTokenError::InvalidInstruction);
        }
        let tag = *vstd::slice::slice_index_get(input, 0);
        let ghost rest = input@.skip(1);
        match tag {
            0 => {
                if n < 27 {
                    return Err(E9thTokenError::InvalidInstruction);
                }
                let total_supply = read_u64_at(input, 1);
                let reward_rate = read_u16_at(input, 9);
                let min_stake_period = read_u64_at(input, 11);
                let max_stake_period = read_u64_at(input, 19);
                proof {
                    assert(input@.subrange(1, 9) =~= rest.subrange(0, 8));
                    assert(input@.subrange(9, 11) =~= rest.subrange(8, 10));
                    assert(input@.subrange(11, 19) =~= rest.subrange(10, 18));
                    assert(input@.subrange(19, 27) =~= rest.subrange(18, 26));
                }
                Ok(
                    E9thTokenInstruction::Initialize {
                        total_supply,
                        reward_rate,
                        min_stake_period,
                        max_stake_period,
                    },
                )
            },
            1 => {
                if n < 9 {
                    return Err(E9thTokenError::InvalidInstruction);
                }
                let amount = read_u64_at(input, 1);
                proof {
                    assert(input@.subrange(1, 9) =~= rest.subrange(0, 8));
                }
                Ok(E9thTokenInstruction::Mint { amount })
            },
            2 => {
                if n < 9 {
                    return Err(E9thTokenError::InvalidInstruction);
                }
                let amount = read_u64_at(input, 1);
                proof {
                    assert(input@.subrange(1, 9) =~= rest.subrange(0, 8));
                }
                Ok(E9thTokenInstruction::Burn { amount })
            },
            3 => {
                if n < 17 {
                    return Err(E9thTokenError::InvalidInstruction);
                }
                let amount = read_u64_at(input, 1);
                let period = read_u64_at(input, 9);
                proof {
                    assert(input@.subrange(1, 9) =~= rest.subrange(0, 8));
                    assert(input@.subrange(9, 17) =~= rest.subrange(8, 16));
                }
                Ok(E9thTokenInstruction::Stake { amount, period })
            },
            4 => Ok(E9thTokenInstruction::Unstake),
            5 => Ok(E9thTokenInstruction::ClaimRewards),
            6 => {
                let fields = unpack_settings(input)?;
                Ok(
                    E9thTokenInstruction::UpdateSettings {
                        reward_rate: fields.0,
                        min_stake_period: fields.1,
                        max_stake_period: fields.2,
                        staking_enabled: fields.3,
                    },
                )
            },
            7 => {
                if n < 33 {
                    return Err(E9thTokenError::InvalidInstruction);
                }
                let new_admin = Identity::read_bytes(input, 1);
                proof {
                    assert(input@.subrange(1, 33) =~= rest.subrange(0, 32));
                }
                Ok(E9thTokenInstruction::TransferAdmin { new_admin })
            },
            _ => Err(E9thTokenError::InvalidInstruction),
        }
    }

    /// Encodes the instruction canonically.
    pub fn pack(&self) -> (r: Vec<u8>)
        ensures
            r@ == self.spec_pack(),
    {
        let mut buf: Vec<u8> = Vec::new();
        match self {
            E9thTokenInstruction::Initialize {
                total_supply,
                reward_rate,
                min_stake_period,
                max_stake_period,
            } => {
                buf.push(0);
                push_u64_le(&mut buf, *total_supply);
                push_u16_le(&mut buf, *reward_rate);
                push_u64_le(&mut buf, *min_stake_period);
                push_u64_le(&mut buf, *max_stake_period);
            },
            E9thTokenInstruction::Mint { amount } => {
                buf.push(1);
                push_u64_le(&mut buf, *amount);
            },
            E9thTokenInstruction::Burn { amount } => {
                buf.push(2);
                push_u64_le(&mut buf, *amount);
            },
            E9thTokenInstruction::Stake { amount, period } => {
                buf.push(3);
                push_u64_le(&mut buf, *amount);
                push_u64_le(&mut buf, *period);
            },
            E9thTokenInstruction::Unstake => {
                buf.push(4);
            },
            E9thTokenInstruction::ClaimRewards => {
                buf.push(5);
            },
            E9thTokenInstruction::UpdateSettings {
                reward_rate,
                min_stake_period,
                max_stake_period,
                staking_enabled,
            } => {
                buf.push(6);
                if let Some(rate) = reward_rate {
                    buf.push(0);
                    push_u16_le(&mut buf, *rate);
                }
                if let Some(period) = min_stake_period {
                    buf.push(1);
                    push_u64_le(&mut buf, *period);
                }
                if let Some(period) = max_stake_period {
                    buf.push(2);
                    push_u64_le(&mut buf, *period);
                }
                if let Some(enabled) = staking_enabled {
                    buf.push(3);
                    buf.push(bool_to_byte(*enabled));
                }
            },
            E9thTokenInstruction::TransferAdmin { new_admin } => {
                buf.push(7);
                new_admin.write_bytes(&mut buf);
            },
        }
        proof {
            assert(buf@ =~= self.spec_pack());
        }
        buf
    }
}

impl E9thInstructionView {
    /// Whether this is one of the legacy instructions.
    pub open spec fn is_legacy(self) -> bool {
        ||| self is LegacyInitialize
        ||| self is LegacyMint
        ||| self is LegacyBurn
        ||| self is LegacyStake
        ||| self is LegacyUnstake
        ||| self is LegacyClaimRewards
        ||| self is LegacyUpdateSettings
        ||| self is LegacyTransferAdmin
    }

    /// The legacy instruction this legacy variant stands for.
    pub open spec fn spec_to_legacy(self) -> Option<E9thTokenInstruction> {
        match self {
            E9thInstructionView::LegacyInitialize {
                total_supply,
                reward_rate,
                min_stake_period,
                max_stake_period,
            } => Some(
                E9thTokenInstruction::Initialize {
                    total_supply,
                    reward_rate,
                    min_stake_period,
                    max_stake_period,
                },
            ),
            E9thInstructionView::LegacyMint { amount } => Some(
                E9thTokenInstruction::Mint { amount },
            ),
            E9thInstructionView::LegacyBurn { amount } => Some(
                E9thTokenInstruction::Burn { amount },
            ),
            E9thInstructionView::LegacyStake { amount, period } => Some(
                E9thTokenInstruction::Stake { amount, period },
            ),
            E9thInstructionView::LegacyUnstake => Some(E9thTokenInstruction::Unstake),
            E9thInstructionView::LegacyClaimRewards => Some(E9thTokenInstruction::ClaimRewards),
            E9thInstructionView::LegacyUpdateSettings {
                reward_rate,
                min_stake_period,
                max_stake_period,
                staking_enabled,
            } => Some(
                E9thTokenInstruction::UpdateSettings {
                    reward_rate,
                    min_stake_period,
                    max_stake_period,
                    staking_enabled,
                },
            ),
            E9thInstructionView::LegacyTransferAdmin { new_admin } => Some(
                E9thTokenInstruction::TransferAdmin { new_admin },
            ),
            _ => None,
        }
    }

    /// The instruction's canonical encoding; a legacy variant delegates to
    /// the legacy dialect's encoder.
    pub open spec fn spec_pack(self) -> Seq<u8> {
        match self {
            E9thInstructionView::Initialize {
                owner,
                operator,
                treasury,
                burn_rate_basis_points,
            } => seq![0u8] + owner.bytes() + operator.bytes() + treasury.bytes()
                + spec_u16_to_le_bytes(burn_rate_basis_points),
            E9thInstructionView::SetPause { pause } => seq![1u8, bool_byte(pause)],
            E9thInstructionView::ModifyBlacklist { account, add } => seq![2u8] + account.bytes()
                + seq![bool_byte(add)],
            E9thInstructionView::Transfer { amount } => seq![3u8] + spec_u64_to_le_bytes(amount),
            E9thInstructionView::Airdrop { recipients, amounts } => seq![4u8]
                + spec_u64_to_le_bytes(recipients.len() as u64) + ids_bytes(recipients)
                + spec_u64_to_le_bytes(amounts.len() as u64) + u64s_bytes(amounts),
            E9thInstructionView::Stake { amount } => seq![5u8] + spec_u64_to_le_bytes(amount),
            E9thInstructionView::Unstake { amount } => seq![6u8] + spec_u64_to_le_bytes(amount),
            E9thInstructionView::ClaimRewards => seq![7u8],
            _ => match self.spec_to_legacy() {
                Some(l) => l.spec_pack(),
                None => Seq::empty(),
            },
        }
    }

    /// The instruction that `data` decodes to under the current dialect, if
    /// any; payload bytes beyond what the tag needs are ignored.
    pub open spec fn spec_unpack(data: Seq<u8>) -> Option<E9thInstructionView> {
        if data.len() < 1 {
            None
        } else {
            let tag = data[0];
            let rest = data.skip(1);
            if tag == 0 {
                if rest.len() >= 98 {
                    Some(
                        E9thInstructionView::Initialize {
                            owner: Identity::spec_from_bytes(rest.subrange(0, 32)),
                            operator: Identity::spec_from_bytes(rest.subrange(32, 64)),
                            treasury: Identity::spec_from_bytes(rest.subrange(64, 96)),
                            burn_rate_basis_points: spec_u16_from_le_bytes(rest.subrange(96, 98)),
                        },
                    )
                } else {
                    None
                }
            } else if tag == 1 {
                if rest.len() >= 1 {
                    Some(E9thInstructionView::SetPause { pause: rest[0] != 0 })
                } else {
                    None
                }
            } else if tag == 2 {
                if rest.len() >= 33 {
                    Some(
                        E9thInstructionView::ModifyBlacklist {
                            account: Identity::spec_from_bytes(rest.subrange(0, 32)),
                            add: rest[32] != 0,
                        },
                    )
                } else {
                    None
                }
            } else if tag == 3 {
                if rest.len() >= 8 {
                    Some(
                        E9thInstructionView::Transfer {
                            amount: spec_u64_from_le_bytes(rest.subrange(0, 8)),
                        },
                    )
                } else {
                    None
                }
            } else if tag == 4 {
                E9thInstructionView::spec_unpack_airdrop(rest)
            } else if tag == 5 {
                if rest.len() >= 8 {
                    Some(
                        E9thInstructionView::Stake {
                            amount: spec_u64_from_le_bytes(rest.subrange(0, 8)),
                        },
                    )
                } else {
                    None
                }
            } else if tag == 6 {
                if rest.len() >= 8 {
                    Some(
                        E9thInstructionView::Unstake {
                            amount: spec_u64_from_le_bytes(rest.subrange(0, 8)),
                        },
                    )
                } else {
                    None
                }
            } else if tag == 7 {
                Some(E9thInstructionView::ClaimRewards)
            } else {
                None
            }
        }
    }

    /// Reads an airdrop payload: a length-prefixed run of identities, then a
    /// length-prefixed run of amounts.
    pub open spec fn spec_unpack_airdrop(rest: Seq<u8>) -> Option<E9thInstructionView> {
        if rest.len() >= 8 {
            let n = spec_u64_from_le_bytes(rest.subrange(0, 8));
            if rest.len() >= 8 + 32 * n {
                let recipients = spec_ids(rest.skip(8), n as nat);
                let rest2 = rest.skip(8 + 32 * n);
                if rest2.len() >= 8 {
                    let m = spec_u64_from_le_bytes(rest2.subrange(0, 8));
                    if rest2.len() >= 8 + 8 * m {
                        Some(
                            E9thInstructionView::Airdrop {
                                recipients,
                                amounts: spec_u64s(rest2.skip(8), m as nat),
                            },
                        )
                    } else {
                        None
                    }
                } else {
                    None
                }
            } else {
                None
            }
        } else {
            None
        }
    }
}

impl E9thInstruction {
    /// Decodes a byte buffer under the current dialect.
    pub fn unpack(input: &[u8]) -> (r: Result<E9thInstruction, E9thTokenError>)
        ensures
            match E9thInstructionView::spec_unpack(input@) {
                Some(v) => r matches Ok(i) && i@ == v,
                None => r == Err::<E9thInstruction, E9thTokenError>(
                    E9thTokenError::InvalidInstruction,
                ),
            },
    {
        let n = input.len();
        if n < 1 {
            return Err(E9thTokenError::InvalidInstruction);
        }
        let tag = *vstd::slice::slice_index_get(input, 0);
        let ghost rest = input@.skip(1);
        match tag {
            0 => {
                if n < 99 {
                    return Err(E9thTokenError::InvalidInstruction);
                }
                let owner = Identity::read_bytes(input, 1);
                let operator = Identity::read_bytes(input, 33);
                let treasury = Identity::read_bytes(input, 65);
                let burn_rate_basis_points = read_u16_at(input, 97);
                proof {
                    assert(input@.subrange(1, 33) =~= rest.subrange(0, 32));
                    assert(input@.subrange(33, 65) =~= rest.subrange(32, 64));
                    assert(input@.subrange(65, 97) =~= rest.subrange(64, 96));
                    assert(input@.subrange(97, 99) =~= rest.subrange(96, 98));
                }
                Ok(E9thInstruction::Initialize { owner, operator, treasury, burn_rate_basis_points })
            },
            1 => {
                if n < 2 {
                    return Err(E9thTokenError::InvalidInstruction);
                }
                let pause = *vstd::slice::slice_index_get(input, 1);
                proof {
                    assert(rest[0] == input@[1]);
                }
                Ok(E9thInstruction::SetPause { pause: pause != 0 })
            },
            2 => {
                if n < 34 {
                    return Err(E9thTokenError::InvalidInstruction);
                }
                let account = Identity::read_bytes(input, 1);
                let add = *vstd::slice::slice_index_get(input, 33);
                proof {
                    assert(input@.subrange(1, 33) =~= rest.subrange(0, 32));
                    assert(rest[32] == input@[33]);
                }
                Ok(E9thInstruction::ModifyBlacklist { account, add: add != 0 })
            },
            3 => {
                if n < 9 {
                    return Err(E9thTokenError::InvalidInstruction);
                }
                let amount = read_u64_at(input, 1);
                proof {
                    assert(input@.subrange(1, 9) =~= rest.subrange(0, 8));
                }
                Ok(E9thInstruction::Transfer { amount })
            },
            4 => Self::unpack_airdrop(input),
            5 => {
                if n < 9 {
                    return Err(E9thTokenError::InvalidInstruction);
                }
                let amount = read_u64_at(input, 1);
                proof {
                    assert(input@.subrange(1, 9) =~= rest.subrange(0, 8));
                }
                Ok(E9thInstruction::Stake { amount })
            },
            6 => {
                if n < 9 {
                    return Err(E9thTokenError::InvalidInstruction);
                }
                let amount = read_u64_at(input, 1);
                proof {
                    assert(input@.subrange(1, 9) =~= rest.subrange(0, 8));
                }
                Ok(E9thInstruction::Unstake { amount })
            },
            7 => Ok(E9thInstruction::ClaimRewards),
            _ => Err(E9thTokenError::InvalidInstruction),
        }
    }

    /// Decodes an airdrop payload (the whole buffer, opcode byte included).
    fn unpack_airdrop(input: &[u8]) -> (r: Result<E9thInstruction, E9thTokenError>)
        requires
            input@.len() >= 1,
            input@[0] == 4,
        ensures
            match E9thInstructionView::spec_unpack_airdrop(input@.skip(1)) {
                Some(v) => r matches Ok(i) && i@ == v,
                None => r == Err::<E9thInstruction, E9thTokenError>(
                    E9thTokenError::InvalidInstruction,
                ),
            },
    {
        let n = input.len();
        let ghost rest = input@.skip(1);
        if n < 9 {
            return Err(E9thTokenError::InvalidInstruction);
        }
        let cnt = read_u64_at(input, 1);
        proof {
            assert(input@.subrange(1, 9) =~= rest.subrange(0, 8));
        }
        let avail = ((n - 9) as u64) / 32;
        if cnt > avail {
            proof {
                assert(rest.len() < 8 + 32 * cnt);
            }
            return Err(E9thTokenError::InvalidInstruction);
        }
        let cnt_us = cnt as usize;
        let recipients = read_ids(input, 9, cnt_us);
        let off2 = 9 + 32 * cnt_us;
        let ghost rest2 = rest.skip(8 + 32 * (cnt as int));
        proof {
            assert(rest2 =~= input@.skip(off2 as int));
        }
        if n - off2 < 8 {
            return Err(E9thTokenError::InvalidInstruction);
        }
        let m = read_u64_at(input, off2);
        proof {
            assert(input@.subrange(off2 as int, off2 + 8) =~= rest2.subrange(0, 8));
        }
        let avail2 = ((n - off2 - 8) as u64) / 8;
        if m > avail2 {
            proof {
                assert(rest2.len() < 8 + 8 * m);
            }
            return Err(E9thTokenError::InvalidInstruction);
        }
        let m_us = m as usize;
        let amounts = read_u64s(input, off2 + 8, m_us);
        proof {
            assert(input@.skip(9) =~= rest.skip(8));
            assert(input@.skip(off2 + 8) =~= rest2.skip(8));
        }
        Ok(E9thInstruction::Airdrop { recipients, amounts })
    }

    /// Encodes the instruction canonically; a legacy variant delegates to
    /// the legacy dialect's encoder.
    pub fn pack(&self) -> (r: Vec<u8>)
        ensures
            r@ == self@.spec_pack(),
    {
        let mut buf: Vec<u8> = Vec::new();
        match self {
            E9thInstruction::Initialize { owner, operator, treasury, burn_rate_basis_points } => {
                buf.push(0);
                owner.write_bytes(&mut buf);
                operator.write_bytes(&mut buf);
                treasury.write_bytes(&mut buf);
                push_u16_le(&mut buf, *burn_rate_basis_points);
            },
            E9thInstruction::SetPause { pause } => {
                buf.push(1);
                buf.push(bool_to_byte(*pause));
            },
            E9thInstruction::ModifyBlacklist { account, add } => {
                buf.push(2);
                account.write_bytes(&mut buf);
                buf.push(bool_to_byte(*add));
            },
            E9thInstruction::Transfer { amount } => {
                buf.push(3);
                push_u64_le(&mut buf, *amount);
            },
            E9thInstruction::Airdrop { recipients, amounts } => {
                buf.push(4);
                push_u64_le(&mut buf, recipients.len() as u64);
                write_ids(recipients, &mut buf);
                push_u64_le(&mut buf, amounts.len() as u64);
                write_u64s(amounts, &mut buf);
            },
            E9thInstruction::Stake { amount } => {
                buf.push(5);
                push_u64_le(&mut buf, *amount);
            },
            E9thInstruction::Unstake { amount } => {
                buf.push(6);
                push_u64_le(&mut buf, *amount);
            },
            E9thInstruction::ClaimRewards => {
                buf.push(7);
            },
            _ => {
                let r = match self.to_legacy() {
                    Ok(legacy_instr) => legacy_instr.pack(),
                    Err(_) => Vec::new(),
                };
                proof {
                    assert(r@ =~= self@.spec_pack());
                }
                return r;
            },
        }
        proof {
            assert(buf@ =~= self@.spec_pack());
        }
        buf
    }

    /// The legacy instruction a legacy variant stands for; a current-dialect
    /// instruction has none.
    fn to_legacy(&self) -> (r: Result<E9thTokenInstruction, E9thTokenError>)
        ensures
            match self@.spec_to_legacy() {
                Some(l) => r == Ok::<E9thTokenInstruction, E9thTokenError>(l),
                None => r == Err::<E9thTokenInstruction, E9thTokenError>(
                    E9thTokenError::InvalidInstruction,
                ),
            },
    {
        match self {
            E9thInstruction::LegacyInitialize {
                total_supply,
                reward_rate,
                min_stake_period,
                max_stake_period,
            } => Ok(
                E9thTokenInstruction::Initialize {
                    total_supply: *total_supply,
                    reward_rate: *reward_rate,
                    min_stake_period: *min_stake_period,
                    max_stake_period: *max_stake_period,
                },
            ),
            E9thInstruction::LegacyMint { amount } => Ok(
                E9thTokenInstruction::Mint { amount: *amount },
            ),
            E9thInstruction::LegacyBurn { amount } => Ok(
                E9thTokenInstruction::Burn { amount: *amount },
            ),
            E9thInstruction::LegacyStake { amount, period } => Ok(
                E9thTokenInstruction::Stake { amount: *amount, period: *period },
            ),
            E9thInstruction::LegacyUnstake => Ok(E9thTokenInstruction::Unstake),
            E9thInstruction::LegacyClaimRewards => Ok(E9thTokenInstruction::ClaimRewards),
            E9thInstruction::LegacyUpdateSettings {
                reward_rate,
                min_stake_period,
                max_stake_period,
                staking_enabled,
            } => Ok(
                E9thTokenInstruction::UpdateSettings {
                    reward_rate: *reward_rate,
                    min_stake_period: *min_stake_period,
                    max_stake_period: *max_stake_period,
                    staking_enabled: *staking_enabled,
                },
            ),
            E9thInstruction::LegacyTransferAdmin { new_admin } => Ok(
                E9thTokenInstruction::TransferAdmin { new_admin: *new_admin },
            ),
            _ => Err(E9thTokenError::InvalidInstruction),
        }
    }
}

/// The unified command a legacy instruction stands for.
pub open spec fn spec_from_legacy(l: E9thTokenInstruction) -> E9thInstructionView {
    match l {
        E9thTokenInstruction::Initialize {
            total_supply,
            reward_rate,
            min_stake_period,
            max_stake_period,
        } => (E9thInstructionView::LegacyInitialize {
            total_supply,
            reward_rate,
            min_stake_period,
            max_stake_period,
        }),
        E9thTokenInstruction::Mint { amount } => (E9thInstructionView::LegacyMint { amount }),
        E9thTokenInstruction::Burn { amount } => (E9thInstructionView::LegacyBurn { amount }),
        E9thTokenInstruction::Stake { amount, period } => (E9thInstructionView::LegacyStake {
            amount,
            period,
        }),
        E9thTokenInstruction::Unstake => E9thInstructionView::LegacyUnstake,
        E9thTokenInstruction::ClaimRewards => E9thInstructionView::LegacyClaimRewards,
        E9thTokenInstruction::UpdateSettings {
            reward_rate,
            min_stake_period,
            max_stake_period,
            staking_enabled,
        } => (E9thInstructionView::LegacyUpdateSettings {
            reward_rate,
            min_stake_period,
            max_stake_period,
            staking_enabled,
        }),
        E9thTokenInstruction::TransferAdmin { new_admin } => (
        E9thInstructionView::LegacyTransferAdmin { new_admin }),
    }
}

/// The unified command a legacy instruction stands for.
pub fn from_legacy(l: &E9thTokenInstruction) -> (r: E9thInstruction)
    ensures
        r@ == spec_from_legacy(*l),
{
    match l {
        E9thTokenInstruction::Initialize {
            total_supply,
            reward_rate,
            min_stake_period,
            max_stake_period,
        } => E9thInstruction::LegacyInitialize {
            total_supply: *total_supply,
            reward_rate: *reward_rate,
            min_stake_period: *min_stake_period,
            max_stake_period: *max_stake_period,
        },
        E9thTokenInstruction::Mint { amount } => E9thInstruction::LegacyMint { amount: *amount },
        E9thTokenInstruction::Burn { amount } => E9thInstruction::LegacyBurn { amount: *amount },
        E9thTokenInstruction::Stake { amount, period } => E9thInstruction::LegacyStake {
            amount: *amount,
            period: *period,
        },
        E9thTokenInstruction::Unstake => E9thInstruction::LegacyUnstake,
        E9thTokenInstruction::ClaimRewards => E9thInstruction::LegacyClaimRewards,
        E9thTokenInstruction::UpdateSettings {
            reward_rate,
            min_stake_period,
            max_stake_period,
            staking_enabled,
        } => E9thInstruction::LegacyUpdateSettings {
            reward_rate: *reward_rate,
            min_stake_period: *min_stake_period,
            max_stake_period: *max_stake_period,
            staking_enabled: *staking_enabled,
        },
        E9thTokenInstruction::TransferAdmin { new_admin } => E9thInstruction::LegacyTransferAdmin {
            new_admin: *new_admin,
        },
    }
}

/// The command a byte buffer decodes to: the current dialect is tried first,
/// then the legacy one.
pub open spec fn spec_decode(data: Seq<u8>) -> Option<E9thInstructionView> {
    match E9thInstructionView::spec_unpack(data) {
        Some(v) => Some(v),
        None => match E9thTokenInstruction::spec_unpack(data) {
            Some(l) => Some(spec_from_legacy(l)),
            None => None,
        },
    }
}

/// Decodes a byte buffer: the current dialect is tried first, then the
/// legacy one.
pub fn decode_instruction(input: &[u8]) -> (r: Result<E9thInstruction, E9thTokenError>)
    ensures
        match spec_decode(input@) {
            Some(v) => r matches Ok(i) && i@ == v,
            None => r == Err::<E9thInstruction, E9thTokenError>(E9thTokenError::InvalidInstruction),
        },
{
    match E9thInstruction::unpack(input) {
        Ok(instruction) => Ok(instruction),
        Err(_) => {
            let legacy = E9thTokenInstruction::unpack(input)?;
            Ok(from_legacy(&legacy))
        },
    }
}

/// Reading a reward-rate field consumes its three bytes and records the
/// value.
proof fn lemma_settings_step_rr(
    v: u16,
    tail: Seq<u8>,
    rr: Option<u16>,
    mn: Option<u64>,
    mx: Option<u64>,
    se: Option<bool>,
)
    ensures
        read_settings(seq![0u8] + spec_u16_to_le_bytes(v) + tail, rr, mn, mx, se) == read_settings(
            tail,
            Some(v),
            mn,
            mx,
            se,
        ),
{
    lemma_le_round_trips();
    let data = seq![0u8] + spec_u16_to_le_bytes(v) + tail;
    assert(data[0] == 0);
    let rest = data.skip(1);
    assert(rest =~= spec_u16_to_le_bytes(v) + tail);
    assert(rest.subrange(0, 2) =~= spec_u16_to_le_bytes(v));
    assert(rest.skip(2) =~= tail);
}

/// Reading a minimum-period field consumes its nine bytes and records the
/// value.
proof fn lemma_settings_step_mn(
    v: u64,
    tail: Seq<u8>,
    rr: Option<u16>,
    mn: Option<u64>,
    mx: Option<u64>,
    se: Option<bool>,
)
    ensures
        read_settings(seq![1u8] + spec_u64_to_le_bytes(v) + tail, rr, mn, mx, se) == read_settings(
            tail,
            rr,
            Some(v),
            mx,
            se,
        ),
{
    lemma_le_round_trips();
    let data = seq![1u8] + spec_u64_to_le_bytes(v) + tail;
    assert(data[0] == 1);
    let rest = data.skip(1);
    assert(rest =~= spec_u64_to_le_bytes(v) + tail);
    assert(rest.subrange(0, 8) =~= spec_u64_to_le_bytes(v));
    assert(rest.skip(8) =~= tail);
}

/// Reading a maximum-period field consumes its nine bytes and records the
/// value.
proof fn lemma_settings_step_mx(
    v: u64,
    tail: Seq<u8>,
    rr: Option<u16>,
    mn: Option<u64>,
    mx: Option<u64>,
    se: Option<bool>,
)
    ensures
        read_settings(seq![2u8] + spec_u64_to_le_bytes(v) + tail, rr, mn, mx, se) == read_settings(
            tail,
            rr,
            mn,
            Some(v),
            se,
        ),
{
    lemma_le_round_trips();
    let data = seq![2u8] + spec_u64_to_le_bytes(v) + tail;
    assert(data[0] == 2);
    let rest = data.skip(1);
    assert(rest =~= spec_u64_to_le_bytes(v) + tail);
    assert(rest.subrange(0, 8) =~= spec_u64_to_le_bytes(v));
    assert(rest.skip(8) =~= tail);
}

/// Reading a staking-enabled field consumes its two bytes and records the
/// value.
proof fn lemma_settings_step_se(
    v: bool,
    tail: Seq<u8>,
    rr: Option<u16>,
    mn: Option<u64>,
    mx: Option<u64>,
    se: Option<bool>,
)
    ensures
        read_settings(seq![3u8, bool_byte(v)] + tail, rr, mn, mx, se) == read_settings(
            tail,
            rr,
            mn,
            mx,
            Some(v),
        ),
{
    let data = seq![3u8, bool_byte(v)] + tail;
    assert(data[0] == 3);
    let rest = data.skip(1);
    assert(rest[0] == bool_byte(v));
    assert((rest[0] != 0) == v);
    assert(rest.skip(1) =~= tail);
}

/// The length of a sparse settings payload.
pub proof fn lemma_settings_bytes_len(
    rr: Option<u16>,
    mn: Option<u64>,
    mx: Option<u64>,
    se: Option<bool>,
)
    ensures
        settings_bytes(rr, mn, mx, se).len() == (if rr is Some {
            3int
        } else {
            0int
        }) + (if mn is Some {
            9int
        } else {
            0int
        }) + (if mx is Some {
            9int
        } else {
            0int
        }) + (if se is Some {
            2int
        } else {
            0int
        }),
{
    lemma_le_round_trips();
}

/// Reading back a sparse settings payload yields exactly the fields that
/// were written.
pub proof fn lemma_settings_round_trip(
    rr: Option<u16>,
    mn: Option<u64>,
    mx: Option<u64>,
    se: Option<bool>,
)
    ensures
        read_settings(settings_bytes(rr, mn, mx, se), None, None, None, None) == Some(
            (rr, mn, mx, se),
        ),
{
    let b_rr: Seq<u8> = match rr {
        Some(v) => seq![0u8] + spec_u16_to_le_bytes(v),
        None => Seq::empty(),
    };
    let b_mn: Seq<u8> = match mn {
        Some(v) => seq![1u8] + spec_u64_to_le_bytes(v),
        None => Seq::empty(),
    };
    let b_mx: Seq<u8> = match mx {
        Some(v) => seq![2u8] + spec_u64_to_le_bytes(v),
        None => Seq::empty(),
    };
    let b_se: Seq<u8> = match se {
        Some(v) => seq![3u8, bool_byte(v)],
        None => Seq::empty(),
    };
    let t3: Seq<u8> = b_se;
    let t2 = b_mx + t3;
    let t1 = b_mn + t2;
    let t0 = b_rr + t1;
    assert(settings_bytes(rr, mn, mx, se) =~= t0);
    match rr {
        Some(v) => {
            assert(t0 =~= seq![0u8] + spec_u16_to_le_bytes(v) + t1);
            lemma_settings_step_rr(v, t1, None, None, None, None);
        },
        None => {
            assert(t0 =~= t1);
        },
    }
    assert(read_settings(t0, None, None, None, None) == read_settings(t1, rr, None, None, None));
    match mn {
        Some(v) => {
            assert(t1 =~= seq![1u8] + spec_u64_to_le_bytes(v) + t2);
            lemma_settings_step_mn(v, t2, rr, None, None, None);
        },
        None => {
            assert(t1 =~= t2);
        },
    }
    assert(read_settings(t1, rr, None, None, None) == read_settings(t2, rr, mn, None, None));
    match mx {
        Some(v) => {
            assert(t2 =~= seq![2u8] + spec_u64_to_le_bytes(v) + t3);
            lemma_settings_step_mx(v, t3, rr, mn, None, None);
        },
        None => {
            assert(t2 =~= t3);
        },
    }
    assert(read_settings(t2, rr, mn, None, None) == read_settings(t3, rr, mn, mx, None));
    match se {
        Some(v) => {
            assert(t3 =~= seq![3u8, bool_byte(v)] + Seq::<u8>::empty());
            lemma_settings_step_se(v, Seq::empty(), rr, mn, mx, None);
            assert(read_settings(Seq::empty(), rr, mn, mx, se) == Some((rr, mn, mx, se)));
        },
        None => {
            assert(t3.len() == 0);
        },
    }
    assert(read_settings(t3, rr, mn, mx, None) == Some((rr, mn, mx, se)));
}

/// Round trip of the legacy dialect: decoding inverts encoding for every
/// legacy instruction.
pub proof fn lemma_legacy_round_trip(v: E9thTokenInstruction)
    ensures
        E9thTokenInstruction::spec_unpack(v.spec_pack()) == Some(v),
{
    lemma_le_round_trips();
    let e = v.spec_pack();
    let rest = e.skip(1);
    match v {
        E9thTokenInstruction::Initialize {
            total_supply,
            reward_rate,
            min_stake_period,
            max_stake_period,
        } => {
            assert(e[0] == 0);
            assert(rest =~= spec_u64_to_le_bytes(total_supply) + spec_u16_to_le_bytes(reward_rate)
                + spec_u64_to_le_bytes(min_stake_period) + spec_u64_to_le_bytes(max_stake_period));
            assert(rest.subrange(0, 8) =~= spec_u64_to_le_bytes(total_supply));
            assert(rest.subrange(8, 10) =~= spec_u16_to_le_bytes(reward_rate));
            assert(rest.subrange(10, 18) =~= spec_u64_to_le_bytes(min_stake_period));
            assert(rest.subrange(18, 26) =~= spec_u64_to_le_bytes(max_stake_period));
        },
        E9thTokenInstruction::Mint { amount } => {
            assert(e[0] == 1);
            assert(rest.subrange(0, 8) =~= spec_u64_to_le_bytes(amount));
        },
        E9thTokenInstruction::Burn { amount } => {
            assert(e[0] == 2);
            assert(rest.subrange(0, 8) =~= spec_u64_to_le_bytes(amount));
        },
        E9thTokenInstruction::Stake { amount, period } => {
            assert(e[0] == 3);
            assert(rest =~= spec_u64_to_le_bytes(amount) + spec_u64_to_le_bytes(period));
            assert(rest.subrange(0, 8) =~= spec_u64_to_le_bytes(amount));
            assert(rest.subrange(8, 16) =~= spec_u64_to_le_bytes(period));
        },
        E9thTokenInstruction::Unstake => {
            assert(e[0] == 4);
        },
        E9thTokenInstruction::ClaimRewards => {
            assert(e[0] == 5);
        },
        E9thTokenInstruction::UpdateSettings {
            reward_rate,
            min_stake_period,
            max_stake_period,
            staking_enabled,
        } => {
            assert(e[0] == 6);
            assert(rest =~= settings_bytes(
                reward_rate,
                min_stake_period,
                max_stake_period,
                staking_enabled,
            ));
            lemma_settings_round_trip(
                reward_rate,
                min_stake_period,
                max_stake_period,
                staking_enabled,
            );
        },
        E9thTokenInstruction::TransferAdmin { new_admin } => {
            assert(e[0] == 7);
            lemma_bytes_len(new_admin);
            assert(rest.subrange(0, 32) =~= new_admin.bytes());
            lemma_identity_round_trip(new_admin);
        },
    }
}

/// Round trip of the current dialect: decoding inverts encoding for every
/// current-dialect instruction. The airdrop vectors must fit their 64-bit
/// length prefixes, as every in-memory vector does.
pub proof fn lemma_enhanced_round_trip(v: E9thInstructionView)
    requires
        !v.is_legacy(),
        v matches E9thInstructionView::Airdrop { recipients, amounts } ==> recipients.len()
            <= u64::MAX && amounts.len() <= u64::MAX,
    ensures
        E9thInstructionView::spec_unpack(v.spec_pack()) == Some(v),
{
    lemma_le_round_trips();
    let e = v.spec_pack();
    let rest = e.skip(1);
    match v {
        E9thInstructionView::Initialize { owner, operator, treasury, burn_rate_basis_points } => {
            lemma_bytes_len(owner);
            lemma_bytes_len(operator);
            lemma_bytes_len(treasury);
            assert(e[0] == 0);
            assert(rest =~= owner.bytes() + operator.bytes() + treasury.bytes()
                + spec_u16_to_le_bytes(burn_rate_basis_points));
            assert(rest.subrange(0, 32) =~= owner.bytes());
            assert(rest.subrange(32, 64) =~= operator.bytes());
            assert(rest.subrange(64, 96) =~= treasury.bytes());
            assert(rest.subrange(96, 98) =~= spec_u16_to_le_bytes(burn_rate_basis_points));
            lemma_identity_round_trip(owner);
            lemma_identity_round_trip(operator);
            lemma_identity_round_trip(treasury);
        },
        E9thInstructionView::SetPause { pause } => {
            assert(e[0] == 1);
            assert(rest[0] == bool_byte(pause));
            assert((rest[0] != 0) == pause);
        },
        E9thInstructionView::ModifyBlacklist { account, add } => {
            lemma_bytes_len(account);
            assert(e[0] == 2);
            assert(rest =~= account.bytes() + seq![bool_byte(add)]);
            assert(rest.subrange(0, 32) =~= account.bytes());
            assert(rest[32] == bool_byte(add));
            assert((rest[32] != 0) == add);
            lemma_identity_round_trip(account);
        },
        E9thInstructionView::Transfer { amount } => {
            assert(e[0] == 3);
            assert(rest.subrange(0, 8) =~= spec_u64_to_le_bytes(amount));
        },
        E9thInstructionView::Airdrop { recipients, amounts } => {
            lemma_ids_bytes_len(recipients);
            lemma_u64s_bytes_len(amounts);
            assert(e[0] == 4);
            let n = recipients.len() as u64;
            let m = amounts.len() as u64;
            let tail2 = spec_u64_to_le_bytes(m) + u64s_bytes(amounts);
            assert(rest =~= spec_u64_to_le_bytes(n) + (ids_bytes(recipients) + tail2));
            assert(rest.subrange(0, 8) =~= spec_u64_to_le_bytes(n));
            assert(rest.skip(8) =~= ids_bytes(recipients) + tail2);
            lemma_ids_round_trip(recipients, tail2);
            assert(rest.len() == 8 + 32 * recipients.len() + 8 + 8 * amounts.len());
            let rest2 = rest.skip(8 + 32 * (n as int));
            assert(rest2 =~= tail2);
            assert(rest2.subrange(0, 8) =~= spec_u64_to_le_bytes(m));
            assert(rest2.skip(8) =~= u64s_bytes(amounts) + Seq::<u8>::empty());
            lemma_u64s_round_trip(amounts, Seq::empty());
            assert(E9thInstructionView::spec_unpack_airdrop(rest) == Some(v));
        },
        E9thInstructionView::Stake { amount } => {
            assert(e[0] == 5);
            assert(rest.subrange(0, 8) =~= spec_u64_to_le_bytes(amount));
        },
        E9thInstructionView::Unstake { amount } => {
            assert(e[0] == 6);
            assert(rest.subrange(0, 8) =~= spec_u64_to_le_bytes(amount));
        },
        E9thInstructionView::ClaimRewards => {
            assert(e[0] == 7);
        },
        _ => {
            assert(false);
        },
    }
}

/// Round trip of the unified decode: decoding inverts encoding for every
/// command whose encoding the current dialect does not also parse. A
/// legacy mint, legacy stake or legacy admin transfer, and a legacy settings
/// update that carries a period bound, encode to bytes that the
/// current-dialect decode accepts first, so the fallback never sees them.
pub proof fn lemma_decode_round_trip(v: E9thInstructionView)
    requires
        v matches E9thInstructionView::Airdrop { recipients, amounts } ==> recipients.len()
            <= u64::MAX && amounts.len() <= u64::MAX,
        !(v is LegacyMint),
        !(v is LegacyStake),
        !(v is LegacyTransferAdmin),
        v matches E9thInstructionView::LegacyUpdateSettings {
            min_stake_period,
            max_stake_period,
            ..
        } ==> min_stake_period is None && max_stake_period is None,
    ensures
        spec_decode(v.spec_pack()) == Some(v),
{
    lemma_le_round_trips();
    if !v.is_legacy() {
        lemma_enhanced_round_trip(v);
    } else {
        let l = v.spec_to_legacy().unwrap();
        let e = v.spec_pack();
        assert(e == l.spec_pack());
        lemma_legacy_round_trip(l);
        let rest = e.skip(1);
        match v {
            E9thInstructionView::LegacyInitialize { .. } => {
                assert(e.len() == 27);
                assert(rest.len() == 26);
                assert(E9thInstructionView::spec_unpack(e) is None);
            },
            E9thInstructionView::LegacyBurn { .. } => {
                assert(e.len() == 9);
                assert(E9thInstructionView::spec_unpack(e) is None);
            },
            E9thInstructionView::LegacyUnstake => {
                assert(e.len() == 1);
                assert(E9thInstructionView::spec_unpack(e) is None);
            },
            E9thInstructionView::LegacyClaimRewards => {
                assert(e.len() == 1);
                assert(E9thInstructionView::spec_unpack(e) is None);
            },
            E9thInstructionView::LegacyUpdateSettings {
                reward_rate,
                min_stake_period,
                max_stake_period,
                staking_enabled,
            } => {
                lemma_settings_bytes_len(
                    reward_rate,
                    min_stake_period,
                    max_stake_period,
                    staking_enabled,
                );
                assert(e.len() <= 6);
                assert(rest.len() < 8);
                assert(E9thInstructionView::spec_unpack(e) is None);
            },
            _ => {
                assert(false);
            },
        }
        assert(spec_from_legacy(l) == v);
    }
}

/// Reads the sparse settings payload that follows the opcode byte of a
/// settings update.
fn unpack_settings(input: &[u8]) -> (r: Result<
    (Option<u16>, Option<u64>, Option<u64>, Option<bool>),
    E9thTokenError,
>)
    requires
        input@.len() >= 1,
    ensures
        match read_settings(input@.skip(1), None, None, None, None) {
            Some(fields) => r == Ok::<_, E9thTokenError>(fields),
            None => r == Err::<(Option<u16>, Option<u64>, Option<u64>, Option<bool>), E9thTokenError>(
                E9thTokenError::InvalidInstruction,
            ),
        },
{
    let n = input.len();
    let mut idx: usize = 1;
    let mut reward_rate: Option<u16> = None;
    let mut min_stake_period: Option<u64> = None;
    let mut max_stake_period: Option<u64> = None;
    let mut staking_enabled: Option<bool> = None;
    while idx < n
        invariant
            1 <= idx <= n,
            n == input@.len(),
            read_settings(input@.skip(1), None, None, None, None) == read_settings(
                input@.skip(idx as int),
                reward_rate,
                min_stake_period,
                max_stake_period,
                staking_enabled,
            ),
        decreases n - idx,
    {
        let tag = *vstd::slice::slice_index_get(input, idx);
        let ghost pre = input@.skip(idx as int);
        let ghost rest = input@.skip(idx + 1);
        proof {
            assert(pre.skip(1) =~= rest);
        }
        if tag == 0 {
            if n - idx - 1 < 2 {
                return Err(E9thTokenError::InvalidInstruction);
            }
            let v = read_u16_at(input, idx + 1);
            proof {
                assert(input@.subrange(idx + 1, idx + 3) =~= rest.subrange(0, 2));
                assert(rest.skip(2) =~= input@.skip(idx + 3));
            }
            reward_rate = Some(v);
            idx = idx + 3;
        } else if tag == 1 {
            if n - idx - 1 < 8 {
                return Err(E9thTokenError::InvalidInstruction);
            }
            let v = read_u64_at(input, idx + 1);
            proof {
                assert(input@.subrange(idx + 1, idx + 9) =~= rest.subrange(0, 8));
                assert(rest.skip(8) =~= input@.skip(idx + 9));
            }
            min_stake_period = Some(v);
            idx = idx + 9;
        } else if tag == 2 {
            if n - idx - 1 < 8 {
                return Err(E9thTokenError::InvalidInstruction);
            }
            let v = read_u64_at(input, idx + 1);
            proof {
                assert(input@.subrange(idx + 1, idx + 9) =~= rest.subrange(0, 8));
                assert(rest.skip(8) =~= input@.skip(idx + 9));
            }
            max_stake_period = Some(v);
            idx = idx + 9;
        } else if tag == 3 {
            if n - idx - 1 < 1 {
                return Err(E9thTokenError::InvalidInstruction);
            }
            let v = *vstd::slice::slice_index_get(input, idx + 1);
            proof {
                assert(rest[0] == input@[idx + 1]);
                assert(rest.skip(1) =~= input@.skip(idx + 2));
            }
            staking_enabled = Some(v != 0);
            idx = idx + 2;
        } else {
            return Err(E9thTokenError::InvalidInstruction);
        }
    }
    proof {
        assert(input@.skip(idx as int).len() == 0);
    }
    Ok((reward_rate, min_stake_period, max_stake_period, staking_enabled))
}

} // verus!
