//! Account handles as the host hands them in, and the external effects the
//! engine hands back.

use crate::identity::Identity;
use vstd::prelude::*;

verus! {

/// One account handle: its address, owning program, signer and writable
/// flags, and its byte buffer.
#[derive(Clone, Debug)]
pub struct Account {
    /// The account's address.
    pub key: Identity,
    /// The program that owns the account.
    pub owner: Identity,
    /// Whether this account signed the call.
    pub is_signer: bool,
    /// Whether the buffer may be written.
    pub is_writable: bool,
    /// The account's byte buffer.
    pub data: Vec<u8>,
}

/// The mathematical value of an [`Account`].
pub struct AccountView {
    pub key: Identity,
    pub owner: Identity,
    pub is_signer: bool,
    pub is_writable: bool,
    pub data: Seq<u8>,
}

impl View for Account {
    type V = AccountView;

    open spec fn view(&self) -> AccountView {
        AccountView {
            key: self.key,
            owner: self.owner,
            is_signer: self.is_signer,
            is_writable: self.is_writable,
            data: self.data@,
        }
    }
}

/// An external effect the engine asks the host to perform, with the exact
/// arguments to pass to the outside ledger primitive. The engine's contract
/// is that it asks for these calls; performing them is the host's part.
#[derive(Clone, Copy, Debug, PartialEq, Eq, Structural)]
pub enum LedgerAction {
    /// No outside call is owed.
    NoEffect,
    /// Provision the state buffer: a `space`-byte account at `address`,
    /// funded by `funder` and owned by `owner`.
    CreateStateAccount { funder: Identity, address: Identity, owner: Identity, space: u64 },
    /// Mint `amount` tokens: `mint_to(token_program, mint, destination,
    /// authority, amount)` with no multisig set.
    MintTo { token_program: Identity, mint: Identity, destination: Identity, authority: Identity, amount: u64 },
    /// Burn `amount` tokens: `burn(token_program, source, mint, authority,
    /// amount)` with no multisig set.
    BurnTokens { token_program: Identity, source: Identity, mint: Identity, authority: Identity, amount: u64 },
    /// Pay `amount` reward tokens to `destination`.
    RewardPayout { destination: Identity, amount: u64 },
    /// `amount` tokens stopped being staked and are owed back to `owner`.
    StakeReleased { owner: Identity, amount: u64 },
}

} // verus!
