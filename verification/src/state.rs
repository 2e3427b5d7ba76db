//! Persisted account records, their fixed-layout codec, and the reward
//! engine.
//!
//! Every record is serialized into the leading bytes of a caller-supplied
//! buffer: multi-byte integers little-endian, booleans one byte (0 or 1),
//! identities 32 bytes. A buffer decodes only if it is exactly one complete,
//! well-formed encoding; short or malformed buffers are rejected, never
//! panicked on.

use crate::error::E9thTokenError;
use crate::identity::{
    ids_bytes, lemma_bytes_len, lemma_identity_round_trip, lemma_ids_bytes_len,
    lemma_ids_round_trip, read_ids, spec_ids, write_ids, Identity,
};
use crate::wire::{bool_byte, bool_to_byte, lemma_le_round_trips, push_u16_le, push_u32_le,
    push_u64_le, read_u16_at, read_u32_at, read_u64_at};
use vstd::bytes::{spec_u16_from_le_bytes, spec_u16_to_le_bytes, spec_u32_from_le_bytes,
    spec_u32_to_le_bytes, spec_u64_from_le_bytes, spec_u64_to_le_bytes};
use vstd::prelude::*;

verus! {

/// Byte length of an encoded `ProgramState`.
pub const PROGRAM_STATE_LEN: usize = 100;

/// Byte length of an encoded `StakeAccount`.
pub const STAKE_ACCOUNT_LEN: usize = 65;

/// Byte length of an encoded `TokenConfig`.
pub const TOKEN_CONFIG_LEN: usize = 167;

/// Byte length of an encoded `StakeEntry`.
pub const STAKE_ENTRY_LEN: usize = 81;

/// `a + b`, stopping at the largest 64-bit value instead of wrapping.
pub open spec fn sat_add_u64(a: u64, b: u64) -> u64 {
    if a + b > u64::MAX {
        u64::MAX
    } else {
        (a + b) as u64
    }
}

/// `a - b`, stopping at zero instead of wrapping.
pub open spec fn sat_sub_u64(a: u64, b: u64) -> u64 {
    if a < b {
        0u64
    } else {
        (a - b) as u64
    }
}

/// The 64-bit value nearest to the mathematical value `v`.
pub open spec fn cap_u64(v: int) -> u64 {
    if v > u64::MAX {
        u64::MAX
    } else if v < 0 {
        0u64
    } else {
        v as u64
    }
}

/// A record that is persisted in an account buffer under a fixed layout.
pub trait AccountRecord: Sized {
    /// Whether the record fits its wire format at all.
    spec fn encodable(&self) -> bool;

    /// The record's canonical encoding.
    spec fn encoding(&self) -> Seq<u8>;

    /// The record that `data` decodes to, if `data` is exactly one complete,
    /// well-formed encoding.
    spec fn decoding(data: Seq<u8>) -> Option<Self>;

    /// Reads the record that `data` decodes to.
    fn read_from(data: &[u8]) -> (r: Result<Self, E9thTokenError>)
        ensures
            match Self::decoding(data@) {
                Some(v) => r == Ok::<Self, E9thTokenError>(v),
                None => r == Err::<Self, E9thTokenError>(E9thTokenError::InvalidAccountData),
            },
    ;

    /// The record's canonical encoding as a fresh vector.
    fn to_bytes(&self) -> (r: Vec<u8>)
        requires
            self.encodable(),
        ensures
            r@ == self.encoding(),
    ;
}

/// Reads the record that the buffer decodes to; the buffer must be exactly
/// one complete, well-formed encoding.
pub fn deserialize_account_data<T: AccountRecord>(data: &[u8]) -> (r: Result<T, E9thTokenError>)
    ensures
        match T::decoding(data@) {
            Some(v) => r == Ok::<T, E9thTokenError>(v),
            None => r == Err::<T, E9thTokenError>(E9thTokenError::InvalidAccountData),
        },
{
    T::read_from(data)
}

/// Writes the record's canonical encoding over the leading bytes of the
/// buffer, failing (without writing) if the encoding does not fit.
pub fn serialize_account_data<T: AccountRecord>(data: &mut Vec<u8>, value: &T) -> (r: Result<
    (),
    E9thTokenError,
>)
    requires
        value.encodable(),
    ensures
        if value.encoding().len() <= old(data)@.len() {
            &&& r == Ok::<(), E9thTokenError>(())
            &&& final(data)@ == value.encoding() + old(data)@.skip(value.encoding().len() as int)
        } else {
            &&& r == Err::<(), E9thTokenError>(E9thTokenError::InvalidAccountData)
            &&& final(data)@ == old(data)@
        },
{
    let enc = value.to_bytes();
    write_prefix(data, &enc)
}

/// Overwrites the leading bytes of `data` with `src`, failing (without
/// writing) if `src` is longer than `data`.
pub fn write_prefix(data: &mut Vec<u8>, src: &Vec<u8>) -> (r: Result<(), E9thTokenError>)
    ensures
        if src@.len() <= old(data)@.len() {
            &&& r == Ok::<(), E9thTokenError>(())
            &&& final(data)@ == src@ + old(data)@.skip(src@.len() as int)
        } else {
            &&& r == Err::<(), E9thTokenError>(E9thTokenError::InvalidAccountData)
            &&& final(data)@ == old(data)@
        },
{
    if src.len() > data.len() {
        return Err(E9thTokenError::InvalidAccountData);
    }
    let n = src.len();
    let mut i: usize = 0;
    while i < n
        invariant
            i <= n,
            n == src@.len(),
            n <= data@.len(),
            data@.len() == old(data)@.len(),
            forall|j: int| 0 <= j < i ==> data@[j] == src@[j],
            forall|j: int| i <= j < data@.len() ==> data@[j] == old(data)@[j],
        decreases n - i,
    {
        let b = src[i];
        data[i] = b;
        i = i + 1;
    }
    proof {
        assert(data@ =~= src@ + old(data)@.skip(src@.len() as int));
    }
    Ok(())
}

/// Global configuration and aggregate counters of the token ledger.
#[derive(Clone, Copy, Debug, PartialEq, Eq, Structural)]
pub struct TokenConfig {
    /// Multisig or super admin.
    pub owner: Identity,
    /// Runs pause, blacklist and airdrop operations.
    pub operator: Identity,
    /// Holds the reward pool.
    pub treasury: Identity,
    /// Whether token transfers are paused.
    pub is_paused: bool,
    /// Burn rate in basis points.
    pub burn_rate_basis_points: u16,
    /// Token mint.
    pub mint: Identity,
    /// Total supply.
    pub total_supply: u64,
    /// Whether staking is enabled.
    pub staking_enabled: bool,
    /// Reward rate per epoch, in basis points.
    pub reward_rate: u16,
    /// Minimum stake period, in epochs.
    pub min_stake_period: u64,
    /// Maximum stake period, in epochs.
    pub max_stake_period: u64,
    /// Total staked amount.
    pub total_staked: u64,
    /// Bump seed of the derived address.
    pub bump: u8,
}

/// Identities barred from transfers; set semantics, no duplicates.
#[derive(Clone, Debug, PartialEq, Eq)]
pub struct Blacklist {
    /// The barred identities.
    pub accounts: Vec<Identity>,
    /// Bump seed of the derived address.
    pub bump: u8,
}

/// One staker's position under the time-based reward law.
#[derive(Clone, Copy, Debug, PartialEq, Eq, Structural)]
pub struct StakeEntry {
    /// The staker.
    pub staker: Identity,
    /// Amount staked.
    pub amount: u64,
    /// Timestamp rewards were last computed against.
    pub last_reward_timestamp: u64,
    /// Epoch the stake began.
    pub start_epoch: u64,
    /// Stake period, in epochs.
    pub period: u64,
    /// Rewards claimed so far.
    pub rewards_claimed: u64,
    /// Absolute time before which the stake is locked.
    pub lock_time: u64,
    /// Bump seed of the derived address.
    pub bump: u8,
}

/// Global state of the legacy dialect: admin, mint and aggregate counters.
#[derive(Clone, Copy, Debug, PartialEq, Eq, Structural)]
pub struct ProgramState {
    /// Admin authority.
    pub admin: Identity,
    /// Token mint.
    pub mint: Identity,
    /// Total supply.
    pub total_supply: u64,
    /// Whether staking is enabled.
    pub staking_enabled: bool,
    /// Reward rate per epoch, in basis points.
    pub reward_rate: u16,
    /// Minimum stake period, in epochs.
    pub min_stake_period: u64,
    /// Maximum stake period, in epochs.
    pub max_stake_period: u64,
    /// Total staked amount.
    pub total_staked: u64,
    /// Bump seed of the derived address.
    pub bump: u8,
}

/// One staker's position under the epoch-based reward law.
#[derive(Clone, Copy, Debug, PartialEq, Eq, Structural)]
pub struct StakeAccount {
    /// Owner of the stake; `amount == 0` marks a closed stake.
    pub owner: Identity,
    /// Amount staked.
    pub amount: u64,
    /// Epoch the stake began.
    pub start_epoch: u64,
    /// Stake period, in epochs.
    pub period: u64,
    /// Rewards claimed so far.
    pub rewards_claimed: u64,
    /// Bump seed of the derived address.
    pub bump: u8,
}

impl AccountRecord for ProgramState {
    open spec fn encodable(&self) -> bool {
        true
    }

    open spec fn encoding(&self) -> Seq<u8> {
        self.admin.bytes() + self.mint.bytes() + spec_u64_to_le_bytes(self.total_supply)
            + seq![bool_byte(self.staking_enabled)] + spec_u16_to_le_bytes(self.reward_rate)
            + spec_u64_to_le_bytes(self.min_stake_period) + spec_u64_to_le_bytes(
            self.max_stake_period,
        ) + spec_u64_to_le_bytes(self.total_staked) + seq![self.bump]
    }

    open spec fn decoding(data: Seq<u8>) -> Option<ProgramState> {
        if data.len() == 100 && (data[72] == 0 || data[72] == 1) {
            Some(
                ProgramState {
                    admin: Identity::spec_from_bytes(data.subrange(0, 32)),
                    mint: Identity::spec_from_bytes(data.subrange(32, 64)),
                    total_supply: spec_u64_from_le_bytes(data.subrange(64, 72)),
                    staking_enabled: data[72] == 1,
                    reward_rate: spec_u16_from_le_bytes(data.subrange(73, 75)),
                    min_stake_period: spec_u64_from_le_bytes(data.subrange(75, 83)),
                    max_stake_period: spec_u64_from_le_bytes(data.subrange(83, 91)),
                    total_staked: spec_u64_from_le_bytes(data.subrange(91, 99)),
                    bump: data[99],
                },
            )
        } else {
            None
        }
    }

    fn read_from(data: &[u8]) -> (r: Result<Self, E9thTokenError>) {
        if data.len() != PROGRAM_STATE_LEN {
            return Err(E9thTokenError::InvalidAccountData);
        }
        let flag = *vstd::slice::slice_index_get(data, 72);
        if flag > 1 {
            return Err(E9thTokenError::InvalidAccountData);
        }
        Ok(
            ProgramState {
                admin: Identity::read_bytes(data, 0),
                mint: Identity::read_bytes(data, 32),
                total_supply: read_u64_at(data, 64),
                staking_enabled: flag == 1,
                reward_rate: read_u16_at(data, 73),
                min_stake_period: read_u64_at(data, 75),
                max_stake_period: read_u64_at(data, 83),
                total_staked: read_u64_at(data, 91),
                bump: *vstd::slice::slice_index_get(data, 99),
            },
        )
    }

    fn to_bytes(&self) -> (r: Vec<u8>) {
        let mut buf: Vec<u8> = Vec::new();
        self.admin.write_bytes(&mut buf);
        self.mint.write_bytes(&mut buf);
        push_u64_le(&mut buf, self.total_supply);
        buf.push(bool_to_byte(self.staking_enabled));
        push_u16_le(&mut buf, self.reward_rate);
        push_u64_le(&mut buf, self.min_stake_period);
        push_u64_le(&mut buf, self.max_stake_period);
        push_u64_le(&mut buf, self.total_staked);
        buf.push(self.bump);
        proof {
            assert(buf@ =~= self.encoding());
        }
        buf
    }
}

/// An encoded `ProgramState` is 100 bytes long.
pub proof fn lemma_program_state_len(st: ProgramState)
    ensures
        st.encoding().len() == 100,
{
    lemma_bytes_len(st.admin);
    lemma_bytes_len(st.mint);
    lemma_le_round_trips();
}

/// Decoding inverts encoding for `ProgramState`.
pub proof fn lemma_program_state_round_trip(st: ProgramState)
    ensures
        ProgramState::decoding(st.encoding()) == Some(st),
{
    lemma_program_state_len(st);
    lemma_bytes_len(st.admin);
    lemma_bytes_len(st.mint);
    lemma_le_round_trips();
    let e = st.encoding();
    assert(e[72] == bool_byte(st.staking_enabled));
    assert(e[99] == st.bump);
    assert(e.subrange(0, 32) =~= st.admin.bytes());
    assert(e.subrange(32, 64) =~= st.mint.bytes());
    assert(e.subrange(64, 72) =~= spec_u64_to_le_bytes(st.total_supply));
    assert(e.subrange(73, 75) =~= spec_u16_to_le_bytes(st.reward_rate));
    assert(e.subrange(75, 83) =~= spec_u64_to_le_bytes(st.min_stake_period));
    assert(e.subrange(83, 91) =~= spec_u64_to_le_bytes(st.max_stake_period));
    assert(e.subrange(91, 99) =~= spec_u64_to_le_bytes(st.total_staked));
    lemma_identity_round_trip(st.admin);
    lemma_identity_round_trip(st.mint);
}

/// A buffer that decodes to a `ProgramState` is exactly that record's
/// canonical encoding: the codec admits no second byte form of a record.
pub proof fn lemma_program_state_canonical(data: Seq<u8>)
    requires
        ProgramState::decoding(data) is Some,
    ensures
        ProgramState::decoding(data).unwrap().encoding() == data,
{
    lemma_le_round_trips();
    let st = ProgramState::decoding(data).unwrap();
    crate::identity::lemma_identity_bytes_round_trip(data.subrange(0, 32));
    crate::identity::lemma_identity_bytes_round_trip(data.subrange(32, 64));
    assert(st.encoding() =~= data);
}

impl AccountRecord for StakeAccount {
    open spec fn encodable(&self) -> bool {
        true
    }

    open spec fn encoding(&self) -> Seq<u8> {
        self.owner.bytes() + spec_u64_to_le_bytes(self.amount) + spec_u64_to_le_bytes(
            self.start_epoch,
        ) + spec_u64_to_le_bytes(self.period) + spec_u64_to_le_bytes(self.rewards_claimed)
            + seq![self.bump]
    }

    open spec fn decoding(data: Seq<u8>) -> Option<StakeAccount> {
        if data.len() == 65 {
            Some(
                StakeAccount {
                    owner: Identity::spec_from_bytes(data.subrange(0, 32)),
                    amount: spec_u64_from_le_bytes(data.subrange(32, 40)),
                    start_epoch: spec_u64_from_le_bytes(data.subrange(40, 48)),
                    period: spec_u64_from_le_bytes(data.subrange(48, 56)),
                    rewards_claimed: spec_u64_from_le_bytes(data.subrange(56, 64)),
                    bump: data[64],
                },
            )
        } else {
            None
        }
    }

    fn read_from(data: &[u8]) -> (r: Result<Self, E9thTokenError>) {
        if data.len() != STAKE_ACCOUNT_LEN {
            return Err(E9thTokenError::InvalidAccountData);
        }
        Ok(
            StakeAccount {
                owner: Identity::read_bytes(data, 0),
                amount: read_u64_at(data, 32),
                start_epoch: read_u64_at(data, 40),
                period: read_u64_at(data, 48),
                rewards_claimed: read_u64_at(data, 56),
                bump: *vstd::slice::slice_index_get(data, 64),
            },
        )
    }

    fn to_bytes(&self) -> (r: Vec<u8>) {
        let mut buf: Vec<u8> = Vec::new();
        self.owner.write_bytes(&mut buf);
        push_u64_le(&mut buf, self.amount);
        push_u64_le(&mut buf, self.start_epoch);
        push_u64_le(&mut buf, self.period);
        push_u64_le(&mut buf, self.rewards_claimed);
        buf.push(self.bump);
        proof {
            assert(buf@ =~= self.encoding());
        }
        buf
    }
}

impl AccountRecord for TokenConfig {
    open spec fn encodable(&self) -> bool {
        true
    }

    open spec fn encoding(&self) -> Seq<u8> {
        self.owner.bytes() + self.operator.bytes() + self.treasury.bytes()
            + seq![bool_byte(self.is_paused)] + spec_u16_to_le_bytes(self.burn_rate_basis_points)
            + self.mint.bytes() + spec_u64_to_le_bytes(self.total_supply)
            + seq![bool_byte(self.staking_enabled)] + spec_u16_to_le_bytes(self.reward_rate)
            + spec_u64_to_le_bytes(self.min_stake_period) + spec_u64_to_le_bytes(
            self.max_stake_period,
        ) + spec_u64_to_le_bytes(self.total_staked) + seq![self.bump]
    }

    open spec fn decoding(data: Seq<u8>) -> Option<TokenConfig> {
        if data.len() == 167 && (data[96] == 0 || data[96] == 1) && (data[139] == 0 || data[139]
            == 1) {
            Some(
                TokenConfig {
                    owner: Identity::spec_from_bytes(data.subrange(0, 32)),
                    operator: Identity::spec_from_bytes(data.subrange(32, 64)),
                    treasury: Identity::spec_from_bytes(data.subrange(64, 96)),
                    is_paused: data[96] == 1,
                    burn_rate_basis_points: spec_u16_from_le_bytes(data.subrange(97, 99)),
                    mint: Identity::spec_from_bytes(data.subrange(99, 131)),
                    total_supply: spec_u64_from_le_bytes(data.subrange(131, 139)),
                    staking_enabled: data[139] == 1,
                    reward_rate: spec_u16_from_le_bytes(data.subrange(140, 142)),
                    min_stake_period: spec_u64_from_le_bytes(data.subrange(142, 150)),
                    max_stake_period: spec_u64_from_le_bytes(data.subrange(150, 158)),
                    total_staked: spec_u64_from_le_bytes(data.subrange(158, 166)),
                    bump: data[166],
                },
            )
        } else {
            None
        }
    }

    fn read_from(data: &[u8]) -> (r: Result<Self, E9thTokenError>) {
        if data.len() != TOKEN_CONFIG_LEN {
            return Err(E9thTokenError::InvalidAccountData);
        }
        let paused = *vstd::slice::slice_index_get(data, 96);
        if paused > 1 {
            return Err(E9thTokenError::InvalidAccountData);
        }
        let staking = *vstd::slice::slice_index_get(data, 139);
        if staking > 1 {
            return Err(E9thTokenError::InvalidAccountData);
        }
        Ok(
            TokenConfig {
                owner: Identity::read_bytes(data, 0),
                operator: Identity::read_bytes(data, 32),
                treasury: Identity::read_bytes(data, 64),
                is_paused: paused == 1,
                burn_rate_basis_points: read_u16_at(data, 97),
                mint: Identity::read_bytes(data, 99),
                total_supply: read_u64_at(data, 131),
                staking_enabled: staking == 1,
                reward_rate: read_u16_at(data, 140),
                min_stake_period: read_u64_at(data, 142),
                max_stake_period: read_u64_at(data, 150),
                total_staked: read_u64_at(data, 158),
                bump: *vstd::slice::slice_index_get(data, 166),
            },
        )
    }

    fn to_bytes(&self) -> (r: Vec<u8>) {
        let mut buf: Vec<u8> = Vec::new();
        self.owner.write_bytes(&mut buf);
        self.operator.write_bytes(&mut buf);
        self.treasury.write_bytes(&mut buf);
        buf.push(bool_to_byte(self.is_paused));
        push_u16_le(&mut buf, self.burn_rate_basis_points);
        self.mint.write_bytes(&mut buf);
        push_u64_le(&mut buf, self.total_supply);
        buf.push(bool_to_byte(self.staking_enabled));
        push_u16_le(&mut buf, self.reward_rate);
        push_u64_le(&mut buf, self.min_stake_period);
        push_u64_le(&mut buf, self.max_stake_period);
        push_u64_le(&mut buf, self.total_staked);
        buf.push(self.bump);
        proof {
            assert(buf@ =~= self.encoding());
        }
        buf
    }
}

/// An encoded `TokenConfig` is 167 bytes long.
pub proof fn lemma_token_config_len(c: TokenConfig)
    ensures
        c.encoding().len() == 167,
{
    lemma_bytes_len(c.owner);
    lemma_bytes_len(c.operator);
    lemma_bytes_len(c.treasury);
    lemma_bytes_len(c.mint);
    lemma_le_round_trips();
}

/// Decoding inverts encoding for `TokenConfig`.
pub proof fn lemma_token_config_round_trip(c: TokenConfig)
    ensures
        TokenConfig::decoding(c.encoding()) == Some(c),
{
    lemma_token_config_len(c);
    lemma_bytes_len(c.owner);
    lemma_bytes_len(c.operator);
    lemma_bytes_len(c.treasury);
    lemma_bytes_len(c.mint);
    lemma_le_round_trips();
    let e = c.encoding();
    assert(e[96] == bool_byte(c.is_paused));
    assert(e[139] == bool_byte(c.staking_enabled));
    assert(e[166] == c.bump);
    assert(e.subrange(0, 32) =~= c.owner.bytes());
    assert(e.subrange(32, 64) =~= c.operator.bytes());
    assert(e.subrange(64, 96) =~= c.treasury.bytes());
    assert(e.subrange(97, 99) =~= spec_u16_to_le_bytes(c.burn_rate_basis_points));
    assert(e.subrange(99, 131) =~= c.mint.bytes());
    assert(e.subrange(131, 139) =~= spec_u64_to_le_bytes(c.total_supply));
    assert(e.subrange(140, 142) =~= spec_u16_to_le_bytes(c.reward_rate));
    assert(e.subrange(142, 150) =~= spec_u64_to_le_bytes(c.min_stake_period));
    assert(e.subrange(150, 158) =~= spec_u64_to_le_bytes(c.max_stake_period));
    assert(e.subrange(158, 166) =~= spec_u64_to_le_bytes(c.total_staked));
    lemma_identity_round_trip(c.owner);
    lemma_identity_round_trip(c.operator);
    lemma_identity_round_trip(c.treasury);
    lemma_identity_round_trip(c.mint);
}

impl AccountRecord for StakeEntry {
    open spec fn encodable(&self) -> bool {
        true
    }

    open spec fn encoding(&self) -> Seq<u8> {
        self.staker.bytes() + spec_u64_to_le_bytes(self.amount) + spec_u64_to_le_bytes(
            self.last_reward_timestamp,
        ) + spec_u64_to_le_bytes(self.start_epoch) + spec_u64_to_le_bytes(self.period)
            + spec_u64_to_le_bytes(self.rewards_claimed) + spec_u64_to_le_bytes(self.lock_time)
            + seq![self.bump]
    }

    open spec fn decoding(data: Seq<u8>) -> Option<StakeEntry> {
        if data.len() == 81 {
            Some(
                StakeEntry {
                    staker: Identity::spec_from_bytes(data.subrange(0, 32)),
                    amount: spec_u64_from_le_bytes(data.subrange(32, 40)),
                    last_reward_timestamp: spec_u64_from_le_bytes(data.subrange(40, 48)),
                    start_epoch: spec_u64_from_le_bytes(data.subrange(48, 56)),
                    period: spec_u64_from_le_bytes(data.subrange(56, 64)),
                    rewards_claimed: spec_u64_from_le_bytes(data.subrange(64, 72)),
                    lock_time: spec_u64_from_le_bytes(data.subrange(72, 80)),
                    bump: data[80],
                },
            )
        } else {
            None
        }
    }

    fn read_from(data: &[u8]) -> (r: Result<Self, E9thTokenError>) {
        if data.len() != STAKE_ENTRY_LEN {
            return Err(E9thTokenError::InvalidAccountData);
        }
        Ok(
            StakeEntry {
                staker: Identity::read_bytes(data, 0),
                amount: read_u64_at(data, 32),
                last_reward_timestamp: read_u64_at(data, 40),
                start_epoch: read_u64_at(data, 48),
                period: read_u64_at(data, 56),
                rewards_claimed: read_u64_at(data, 64),
                lock_time: read_u64_at(data, 72),
                bump: *vstd::slice::slice_index_get(data, 80),
            },
        )
    }

    fn to_bytes(&self) -> (r: Vec<u8>) {
        let mut buf: Vec<u8> = Vec::new();
        self.staker.write_bytes(&mut buf);
        push_u64_le(&mut buf, self.amount);
        push_u64_le(&mut buf, self.last_reward_timestamp);
        push_u64_le(&mut buf, self.start_epoch);
        push_u64_le(&mut buf, self.period);
        push_u64_le(&mut buf, self.rewards_claimed);
        push_u64_le(&mut buf, self.lock_time);
        buf.push(self.bump);
        proof {
            assert(buf@ =~= self.encoding());
        }
        buf
    }
}

/// An encoded `StakeEntry` is 81 bytes long.
pub proof fn lemma_stake_entry_len(s: StakeEntry)
    ensures
        s.encoding().len() == 81,
{
    lemma_bytes_len(s.staker);
    lemma_le_round_trips();
}

/// Decoding inverts encoding for `StakeEntry`.
pub proof fn lemma_stake_entry_round_trip(s: StakeEntry)
    ensures
        StakeEntry::decoding(s.encoding()) == Some(s),
{
    lemma_stake_entry_len(s);
    lemma_bytes_len(s.staker);
    lemma_le_round_trips();
    let e = s.encoding();
    assert(e[80] == s.bump);
    assert(e.subrange(0, 32) =~= s.staker.bytes());
    assert(e.subrange(32, 40) =~= spec_u64_to_le_bytes(s.amount));
    assert(e.subrange(40, 48) =~= spec_u64_to_le_bytes(s.last_reward_timestamp));
    assert(e.subrange(48, 56) =~= spec_u64_to_le_bytes(s.start_epoch));
    assert(e.subrange(56, 64) =~= spec_u64_to_le_bytes(s.period));
    assert(e.subrange(64, 72) =~= spec_u64_to_le_bytes(s.rewards_claimed));
    assert(e.subrange(72, 80) =~= spec_u64_to_le_bytes(s.lock_time));
    lemma_identity_round_trip(s.staker);
}

impl Blacklist {
    /// Whether the record fits its wire format: the entry count must fit the
    /// 32-bit length prefix.
    pub open spec fn encodable(&self) -> bool {
        self.accounts@.len() <= u32::MAX
    }

    /// The record's canonical encoding: 32-bit entry count, the entries'
    /// wire forms, the bump byte.
    pub open spec fn encoding(&self) -> Seq<u8> {
        spec_u32_to_le_bytes(self.accounts@.len() as u32) + ids_bytes(self.accounts@)
            + seq![self.bump]
    }

    /// The entries and bump that `data` decodes to, if `data` is exactly one
    /// complete encoding.
    pub open spec fn decoding(data: Seq<u8>) -> Option<(Seq<Identity>, u8)> {
        if data.len() >= 5 {
            let count = spec_u32_from_le_bytes(data.subrange(0, 4));
            if data.len() == 5 + 32 * count {
                Some((spec_ids(data.skip(4), count as nat), data[data.len() - 1]))
            } else {
                None
            }
        } else {
            None
        }
    }

    /// Reads the record that `data` decodes to.
    pub fn read_from(data: &[u8]) -> (r: Result<Blacklist, E9thTokenError>)
        ensures
            match Blacklist::decoding(data@) {
                Some(dec) => match r {
                    Ok(b) => b.accounts@ == dec.0 && b.bump == dec.1,
                    Err(_) => false,
                },
                None => r == Err::<Blacklist, E9thTokenError>(E9thTokenError::InvalidAccountData),
            },
    {
        if data.len() < 5 {
            return Err(E9thTokenError::InvalidAccountData);
        }
        let count = read_u32_at(data, 0);
        let body = data.len() - 5;
        if body % 32 != 0 || body / 32 != count as usize {
            return Err(E9thTokenError::InvalidAccountData);
        }
        let ids = read_ids(data, 4, count as usize);
        let bump = *vstd::slice::slice_index_get(data, data.len() - 1);
        Ok(Blacklist { accounts: ids, bump })
    }

    /// The record's canonical encoding as a fresh vector.
    pub fn to_bytes(&self) -> (r: Vec<u8>)
        requires
            self.encodable(),
        ensures
            r@ == self.encoding(),
    {
        let mut buf: Vec<u8> = Vec::new();
        push_u32_le(&mut buf, self.accounts.len() as u32);
        write_ids(&self.accounts, &mut buf);
        buf.push(self.bump);
        proof {
            assert(buf@ =~= self.encoding());
        }
        buf
    }
}

/// Decoding inverts encoding for `Blacklist`.
pub proof fn lemma_blacklist_round_trip(b: Blacklist)
    requires
        b.encodable(),
    ensures
        Blacklist::decoding(b.encoding()) == Some((b.accounts@, b.bump)),
{
    lemma_le_round_trips();
    lemma_ids_bytes_len(b.accounts@);
    let e = b.encoding();
    assert(e.len() == 5 + 32 * b.accounts@.len());
    assert(e.subrange(0, 4) =~= spec_u32_to_le_bytes(b.accounts@.len() as u32));
    assert(e[e.len() - 1] == b.bump);
    assert(e.skip(4) =~= ids_bytes(b.accounts@) + seq![b.bump]);
    lemma_ids_round_trip(b.accounts@, seq![b.bump]);
}

/// A buffer that decodes to a `StakeAccount` is exactly that record's
/// canonical encoding: the codec admits no second byte form of a record.
pub proof fn lemma_stake_account_canonical(data: Seq<u8>)
    requires
        StakeAccount::decoding(data) is Some,
    ensures
        StakeAccount::decoding(data).unwrap().encoding() == data,
{
    lemma_le_round_trips();
    let sa = StakeAccount::decoding(data).unwrap();
    crate::identity::lemma_identity_bytes_round_trip(data.subrange(0, 32));
    assert(sa.encoding() =~= data);
}

impl TokenConfig {
    /// A fresh configuration: unpaused, staking enabled at 100 basis points
    /// per epoch, stake periods between 1 and 365 epochs, nothing issued or
    /// staked yet.
    pub fn new(
        owner: Identity,
        operator: Identity,
        treasury: Identity,
        mint: Identity,
        burn_rate_basis_points: u16,
        bump: u8,
    ) -> (r: TokenConfig)
        ensures
            r == (TokenConfig {
                owner,
                operator,
                treasury,
                is_paused: false,
                burn_rate_basis_points,
                mint,
                total_supply: 0,
                staking_enabled: true,
                reward_rate: 100,
                min_stake_period: 1,
                max_stake_period: 365,
                total_staked: 0,
                bump,
            }),
    {
        TokenConfig {
            owner,
            operator,
            treasury,
            is_paused: false,
            burn_rate_basis_points,
            mint,
            total_supply: 0,
            staking_enabled: true,
            reward_rate: 100,
            min_stake_period: 1,
            max_stake_period: 365,
            total_staked: 0,
            bump,
        }
    }
}

impl Blacklist {
    /// An empty blacklist.
    pub fn new(bump: u8) -> (r: Blacklist)
        ensures
            r.accounts@ == Seq::<Identity>::empty(),
            r.bump == bump,
            r.wf(),
    {
        Blacklist { accounts: Vec::new(), bump }
    }

    /// Whether `account` is barred.
    pub fn is_blacklisted(&self, account: &Identity) -> (r: bool)
        ensures
            r == self.accounts@.contains(*account),
    {
        let mut i: usize = 0;
        while i < self.accounts.len()
            invariant
                i <= self.accounts@.len(),
                forall|j: int| 0 <= j < i ==> self.accounts@[j] != *account,
            decreases self.accounts@.len() - i,
        {
            if self.accounts[i] == *account {
                return true;
            }
            i = i + 1;
        }
        false
    }

    /// Bars `account`; a second add of the same identity changes nothing.
    pub fn add_account(&mut self, account: Identity)
        ensures
            final(self).bump == old(self).bump,
            final(self).accounts@ == if old(self).accounts@.contains(account) {
                old(self).accounts@
            } else {
                old(self).accounts@.push(account)
            },
            old(self).wf() ==> final(self).wf(),
    {
        if !self.is_blacklisted(&account) {
            self.accounts.push(account);
        }
    }

    /// Unbars `account`, dropping every occurrence.
    pub fn remove_account(&mut self, account: &Identity)
        ensures
            final(self).bump == old(self).bump,
            final(self).accounts@ == old(self).accounts@.filter(
                |a: Identity| a != *account,
            ),
            old(self).wf() ==> final(self).wf(),
    {
        proof {
            if old(self).wf() {
                lemma_filter_keeps_no_duplicates(
                    old(self).accounts@,
                    |a: Identity| a != *account,
                );
            }
        }
        let ghost orig = self.accounts@;
        let ghost pred = |a: Identity| a != *account;
        let mut kept: Vec<Identity> = Vec::new();
        let mut i: usize = 0;
        proof {
            assert(orig.take(0) =~= Seq::<Identity>::empty());
            reveal_with_fuel(Seq::filter, 1);
            assert(kept@ =~= orig.take(0).filter(pred));
        }
        while i < self.accounts.len()
            invariant
                i <= orig.len(),
                self.accounts@ == orig,
                kept@ == orig.take(i as int).filter(pred),
                pred == (|a: Identity| a != *account),
            decreases orig.len() - i,
        {
            let a = self.accounts[i];
            proof {
                reveal_with_fuel(Seq::filter, 1);
                assert(orig.take(i + 1).drop_last() =~= orig.take(i as int));
                assert(orig.take(i + 1).last() == orig[i as int]);
            }
            if !(a == *account) {
                kept.push(a);
            }
            i = i + 1;
        }
        proof {
            assert(orig.take(orig.len() as int) =~= orig);
        }
        self.accounts = kept;
    }

    /// A blacklist never holds the same identity twice.
    pub open spec fn wf(&self) -> bool {
        self.accounts@.no_duplicates()
    }
}

/// Every element of a filtered sequence is an element of the sequence.
proof fn lemma_filter_members(s: Seq<Identity>, p: spec_fn(Identity) -> bool)
    ensures
        forall|j: int| 0 <= j < s.filter(p).len() ==> s.contains(#[trigger] s.filter(p)[j]),
    decreases s.len(),
{
    reveal_with_fuel(Seq::filter, 1);
    if s.len() > 0 {
        let d = s.drop_last();
        lemma_filter_members(d, p);
        assert forall|j: int| 0 <= j < s.filter(p).len() implies s.contains(
            #[trigger] s.filter(p)[j],
        ) by {
            let f = s.filter(p);
            let fd = d.filter(p);
            if p(s.last()) {
                assert(f == fd.push(s.last()));
                if j < fd.len() {
                    assert(fd[j] == f[j]);
                    assert(d.contains(f[j]));
                    let k = choose|k: int| 0 <= k < d.len() && d[k] == f[j];
                    assert(s[k] == f[j]);
                } else {
                    assert(f[j] == s.last());
                    assert(s[s.len() - 1] == f[j]);
                }
            } else {
                assert(f == fd);
                assert(d.contains(f[j]));
                let k = choose|k: int| 0 <= k < d.len() && d[k] == f[j];
                assert(s[k] == f[j]);
            }
        }
    }
}

/// Filtering keeps a duplicate-free sequence duplicate-free.
proof fn lemma_filter_keeps_no_duplicates(s: Seq<Identity>, p: spec_fn(Identity) -> bool)
    requires
        s.no_duplicates(),
    ensures
        s.filter(p).no_duplicates(),
    decreases s.len(),
{
    reveal_with_fuel(Seq::filter, 1);
    if s.len() > 0 {
        let d = s.drop_last();
        assert(d.no_duplicates());
        lemma_filter_keeps_no_duplicates(d, p);
        lemma_filter_members(d, p);
        if p(s.last()) {
            let f = s.filter(p);
            let fd = d.filter(p);
            assert(f == fd.push(s.last()));
            assert(!d.contains(s.last()));
            assert forall|i: int, j: int|
                0 <= i < f.len() && 0 <= j < f.len() && i != j implies f[i] != f[j] by {
                if i < fd.len() && j < fd.len() {
                    assert(fd[i] == f[i] && fd[j] == f[j]);
                } else if i < fd.len() {
                    assert(f[j] == s.last());
                    assert(d.contains(fd[i]));
                } else {
                    assert(f[i] == s.last());
                    assert(d.contains(fd[j]));
                }
            }
        }
    }
}

impl ProgramState {
    /// A fresh legacy state: staking enabled at 100 basis points per epoch,
    /// stake periods between 1 and 365 epochs, nothing issued or staked yet.
    pub fn new(admin: Identity, mint: Identity, bump: u8) -> (r: ProgramState)
        ensures
            r == (ProgramState {
                admin,
                mint,
                total_supply: 0,
                staking_enabled: true,
                reward_rate: 100,
                min_stake_period: 1,
                max_stake_period: 365,
                total_staked: 0,
                bump,
            }),
    {
        ProgramState {
            admin,
            mint,
            total_supply: 0,
            staking_enabled: true,
            reward_rate: 100,
            min_stake_period: 1,
            max_stake_period: 365,
            total_staked: 0,
            bump,
        }
    }
}

impl StakeEntry {
    /// A fresh time-based stake: no rewards computed or claimed yet.
    pub fn new(
        staker: Identity,
        amount: u64,
        period: u64,
        start_epoch: u64,
        lock_time: u64,
        bump: u8,
    ) -> (r: StakeEntry)
        ensures
            r == (StakeEntry {
                staker,
                amount,
                last_reward_timestamp: 0,
                start_epoch,
                period,
                rewards_claimed: 0,
                lock_time,
                bump,
            }),
    {
        StakeEntry {
            staker,
            amount,
            last_reward_timestamp: 0,
            start_epoch,
            period,
            rewards_claimed: 0,
            lock_time,
            bump,
        }
    }

    /// The payable reward under the time-based law: continuous accrual of
    /// `amount * reward_rate` basis points per year, counted per second since
    /// rewards were last computed, minus what was already claimed, floored at
    /// zero.
    pub open spec fn spec_rewards(&self, current_timestamp: u64, reward_rate: u16) -> u64 {
        if current_timestamp <= self.last_reward_timestamp {
            0u64
        } else {
            cap_u64(
                (self.amount * reward_rate / 315_360_000_000) * (current_timestamp
                    - self.last_reward_timestamp) - self.rewards_claimed,
            )
        }
    }

    /// Computes the payable time-based reward.
    pub fn calculate_rewards(&self, current_timestamp: u64, reward_rate: u16) -> (r: u64)
        ensures
            r == self.spec_rewards(current_timestamp, reward_rate),
    {
        if current_timestamp <= self.last_reward_timestamp {
            return 0;
        }
        let time_elapsed = current_timestamp - self.last_reward_timestamp;
        proof {
            assert((self.amount as int) * (reward_rate as int) <= (u64::MAX as int) * (
            u16::MAX as int)) by (nonlinear_arith)
                requires
                    self.amount <= u64::MAX,
                    reward_rate <= u16::MAX,
            ;
        }
        let reward_per_second = (self.amount as u128) * (reward_rate as u128) / 315_360_000_000;
        proof {
            vstd::arithmetic::div_mod::lemma_div_is_ordered(
                (self.amount as int) * (reward_rate as int),
                (u64::MAX as int) * (u16::MAX as int),
                315_360_000_000,
            );
            assert((reward_per_second as int) * (time_elapsed as int) <= ((u64::MAX as int) * (
            u16::MAX as int) / 315_360_000_000) * (u64::MAX as int)) by (nonlinear_arith)
                requires
                    reward_per_second as int <= (u64::MAX as int) * (u16::MAX as int)
                        / 315_360_000_000,
                    time_elapsed <= u64::MAX,
                    reward_per_second >= 0,
            ;
        }
        let total_rewards = reward_per_second * (time_elapsed as u128);
        let payable = total_rewards.saturating_sub(self.rewards_claimed as u128);
        if payable > u64::MAX as u128 {
            u64::MAX
        } else {
            payable as u64
        }
    }

    /// Whether the stake's period has elapsed.
    pub fn is_mature(&self, current_epoch: u64) -> (r: bool)
        ensures
            r == (current_epoch >= self.start_epoch + self.period),
    {
        match self.start_epoch.checked_add(self.period) {
            Some(threshold) => current_epoch >= threshold,
            None => false,
        }
    }

    /// Whether the lock time has passed.
    pub fn is_unlocked(&self, current_timestamp: u64) -> (r: bool)
        ensures
            r == (current_timestamp >= self.lock_time),
    {
        current_timestamp >= self.lock_time
    }
}

impl StakeAccount {
    /// A fresh epoch-based stake: no rewards claimed yet.
    pub fn new(owner: Identity, amount: u64, period: u64, start_epoch: u64, bump: u8) -> (r:
        StakeAccount)
        ensures
            r == (StakeAccount { owner, amount, start_epoch, period, rewards_claimed: 0, bump }),
    {
        StakeAccount { owner, amount, start_epoch, period, rewards_claimed: 0, bump }
    }

    /// The payable reward under the epoch-based law: zero before maturity;
    /// once mature, `amount * reward_rate` basis points per epoch over the
    /// whole period, minus what was already claimed, floored at zero.
    pub open spec fn spec_rewards(&self, current_epoch: u64, reward_rate: u16) -> u64 {
        if current_epoch <= self.start_epoch {
            0u64
        } else if current_epoch - self.start_epoch < self.period {
            0u64
        } else {
            cap_u64((self.amount * reward_rate / 10000) * self.period - self.rewards_claimed)
        }
    }

    /// Computes the payable epoch-based reward.
    pub fn calculate_rewards(&self, current_epoch: u64, reward_rate: u16) -> (r: u64)
        ensures
            r == self.spec_rewards(current_epoch, reward_rate),
    {
        if current_epoch <= self.start_epoch {
            return 0;
        }
        let elapsed_epochs = current_epoch - self.start_epoch;
        if elapsed_epochs < self.period {
            return 0;
        }
        proof {
            assert((self.amount as int) * (reward_rate as int) <= (u64::MAX as int) * (
            u16::MAX as int)) by (nonlinear_arith)
                requires
                    self.amount <= u64::MAX,
                    reward_rate <= u16::MAX,
            ;
        }
        let reward_per_epoch = (self.amount as u128) * (reward_rate as u128) / 10000;
        let total_rewards = match reward_per_epoch.checked_mul(self.period as u128) {
            Some(t) => t,
            None => u128::MAX,
        };
        proof {
            let exact = (reward_per_epoch as int) * (self.period as int);
            if exact > u128::MAX {
                assert(total_rewards == u128::MAX);
                assert(exact - self.rewards_claimed > u64::MAX);
                assert(total_rewards as int - self.rewards_claimed > u64::MAX);
            }
        }
        let payable = total_rewards.saturating_sub(self.rewards_claimed as u128);
        if payable > u64::MAX as u128 {
            u64::MAX
        } else {
            payable as u64
        }
    }

    /// Whether the stake's period has elapsed.
    pub fn is_mature(&self, current_epoch: u64) -> (r: bool)
        ensures
            r == (current_epoch >= self.start_epoch + self.period),
    {
        match self.start_epoch.checked_add(self.period) {
            Some(threshold) => current_epoch >= threshold,
            None => false,
        }
    }
}

/// Before maturity the payable epoch-based reward is exactly zero.
pub proof fn lemma_epoch_reward_zero_before_maturity(
    s: StakeAccount,
    current_epoch: u64,
    reward_rate: u16,
)
    requires
        current_epoch < s.start_epoch + s.period,
    ensures
        s.spec_rewards(current_epoch, reward_rate) == 0,
{
}

/// For a fixed amount, rate, claim total and start, the payable epoch-based
/// reward is non-decreasing in the period, as long as both periods are
/// mature at the epoch considered.
pub proof fn lemma_epoch_reward_monotonic_in_period(
    amount: u64,
    reward_rate: u16,
    rewards_claimed: u64,
    start_epoch: u64,
    bump: u8,
    owner: Identity,
    current_epoch: u64,
    p1: u64,
    p2: u64,
)
    requires
        p1 <= p2,
        start_epoch + p2 <= current_epoch,
    ensures
        ({
            let s1 = StakeAccount { owner, amount, start_epoch, period: p1, rewards_claimed, bump };
            let s2 = StakeAccount { owner, amount, start_epoch, period: p2, rewards_claimed, bump };
            s1.spec_rewards(current_epoch, reward_rate) <= s2.spec_rewards(
                current_epoch,
                reward_rate,
            )
        }),
{
    let rpe = amount * reward_rate / 10000;
    assert(rpe >= 0);
    assert(rpe * p1 <= rpe * p2) by (nonlinear_arith)
        requires
            rpe >= 0,
            p1 <= p2,
    ;
}

/// An encoded `StakeAccount` is 65 bytes long.
pub proof fn lemma_stake_account_len(s: StakeAccount)
    ensures
        s.encoding().len() == 65,
{
    lemma_bytes_len(s.owner);
    lemma_le_round_trips();
}

/// Decoding inverts encoding for `StakeAccount`.
pub proof fn lemma_stake_account_round_trip(s: StakeAccount)
    ensures
        StakeAccount::decoding(s.encoding()) == Some(s),
{
    lemma_stake_account_len(s);
    lemma_bytes_len(s.owner);
    lemma_le_round_trips();
    let e = s.encoding();
    assert(e[64] == s.bump);
    assert(e.subrange(0, 32) =~= s.owner.bytes());
    assert(e.subrange(32, 40) =~= spec_u64_to_le_bytes(s.amount));
    assert(e.subrange(40, 48) =~= spec_u64_to_le_bytes(s.start_epoch));
    assert(e.subrange(48, 56) =~= spec_u64_to_le_bytes(s.period));
    assert(e.subrange(56, 64) =~= spec_u64_to_le_bytes(s.rewards_claimed));
    lemma_identity_round_trip(s.owner);
}

} // verus!
