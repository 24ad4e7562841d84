//! The records the store holds, their storage sizes and what storage costs.

use vstd::prelude::*;
use anchor_lang::solana_program::rent::Rent;
use crate::address::Address;

verus! {

/// Width of the type tag that begins every record.
pub const DISCRIMINATOR_SIZE: usize = 8;

/// Width of the length prefix of a text field.
pub const TEXT_PREFIX_SIZE: usize = 4;

/// The largest storage a single record may hold (10 MiB).
pub const MAX_ACCOUNT_SIZE: usize = 10485760;

/// Storage of an identity record: tag, running ordinal, total staked.
pub const USER_SIZE: usize = 24;

/// Fixed part of an ask: tag, ordinal, stake.
pub const ASK_HEADER_SIZE: usize = 24;

/// Storage of the organization counter: tag and running ordinal.
pub const GLOBAL_SIZE: usize = 16;

/// Storage of a membership record: the tag alone.
pub const MEMBERSHIP_SIZE: usize = 8;

/// Storage of the claims counter: tag and claims issued.
pub const CLAIMS_ORDINAL_SIZE: usize = 16;

/// Storage of an authority record: the tag alone.
pub const AUTHORITY_SIZE: usize = 8;

/// Storage of a treasury claim: tag, ordinal, unit of value (2), amount, timestamp.
pub const TREASURY_CLAIM_SIZE: usize = 34;

/// Storage of a token mint.
pub const MINT_SIZE: usize = 82;

/// Storage of a token holding.
pub const TOKEN_ACCOUNT_SIZE: usize = 165;

/// Decimals of the fungible token.
pub const TOKEN_DECIMALS: u8 = 6;

/// The lamports that make a record of the given size exempt from rent.
pub open spec fn rent_of(space: nat) -> nat {
    (128 + space) * 6960
}

/// Relies on `Rent::minimum_balance` of solana-program's default rent:
/// `((128 + space) * 3480) as f64 * 2.0`, exact as an integer below 2^53.
#[verifier::external_body]
pub(crate) fn rent_exempt_minimum(space: usize) -> (r: u64)
    requires
        space <= MAX_ACCOUNT_SIZE,
    ensures
        r == rent_of(space as nat),
{
    Rent::default().minimum_balance(space)
}

/// The byte length of a text in UTF-8.
pub open spec fn text_len(s: Seq<char>) -> nat {
    vstd::utf8::encode_utf8(s).len()
}

/// The byte length of a string in UTF-8.
pub fn text_len_of(s: &String) -> (r: usize)
    ensures
        r == text_len(s@),
{
    s.as_str().as_bytes().len()
}

/// An identity record.
#[derive(Clone, Copy, Debug, PartialEq, Eq, Structural)]
pub struct User {
    /// How many asks this user has placed; the ordinal of the next one.
    pub running_ask_ordinal: u64,
    /// Sum of the stakes on this user's asks.
    pub total_staked: u64,
}

/// A free-text ask, addressed by its owner and its ordinal.
pub struct Ask {
    pub ordinal: u64,
    pub content: String,
    pub stake: u64,
}

impl Ask {
    pub open spec fn spec_size(content_len: nat) -> nat {
        (ASK_HEADER_SIZE + TEXT_PREFIX_SIZE + content_len) as nat
    }

    /// Storage of an ask whose content takes `content_len` bytes.
    pub fn size(content_len: usize) -> (r: usize)
        requires
            content_len <= MAX_ACCOUNT_SIZE,
        ensures
            r == Self::spec_size(content_len as nat),
    {
        ASK_HEADER_SIZE + TEXT_PREFIX_SIZE + content_len
    }
}

/// The organization counter.
#[derive(Clone, Copy, Debug, PartialEq, Eq, Structural)]
pub struct Global {
    /// Ordinal of the next organization.
    pub running_organization_ordinal: u64,
}

impl Global {
    /// The account number that follows the current one.
    pub fn next_account_number(&self) -> (r: Option<u64>)
        ensures
            r == (if self.running_organization_ordinal < u64::MAX {
                Some((self.running_organization_ordinal + 1) as u64)
            } else {
                None::<u64>
            }),
    {
        self.running_organization_ordinal.checked_add(1)
    }
}

/// An organization.
pub struct Organization {
    /// Display name, not unique.
    pub alias: String,
}

impl Organization {
    pub open spec fn spec_size(alias_len: nat) -> nat {
        (DISCRIMINATOR_SIZE + TEXT_PREFIX_SIZE + alias_len) as nat
    }

    /// Storage of an organization whose alias takes `alias_len` bytes.
    pub fn size(alias_len: usize) -> (r: usize)
        requires
            alias_len <= MAX_ACCOUNT_SIZE,
        ensures
            r == Self::spec_size(alias_len as nat),
    {
        DISCRIMINATOR_SIZE + TEXT_PREFIX_SIZE + alias_len
    }
}

/// The unit in which a treasury deposit was made.
#[derive(Clone, Copy, Debug, PartialEq, Eq, Structural)]
pub enum TreasuryCurrency {
    SOL,
    USDC,
    ETH,
}

/// What a treasury claim records of its deposit.
#[derive(Clone, Copy, Debug, PartialEq, Eq, Structural)]
pub struct TreasuryClaim {
    pub ordinal: u64,
    pub unit_of_value: TreasuryCurrency,
    pub deposit_amount: u64,
    pub deposit_timestamp: i64,
}

/// The global claims counter.
#[derive(Clone, Copy, Debug, PartialEq, Eq, Structural)]
pub struct TreasuryClaimsOrdinal {
    /// How many claims have been issued; the last claim's ordinal.
    pub claims_issued: u64,
}

/// A token mint.
#[derive(Clone, Copy, Debug)]
pub struct TokenMint {
    pub authority: Address,
    pub supply: u64,
    pub decimals: u8,
}

/// A holding of one mint's tokens by one owner.
#[derive(Clone, Copy, Debug)]
pub struct TokenHolding {
    pub mint: Address,
    pub owner: Address,
    pub amount: u64,
}

/// What a record holds.
pub enum Record {
    /// A principal's own account, holding lamports and no data.
    Wallet,
    User(User),
    Ask(Ask),
    Global(Global),
    Organization(Organization),
    Membership,
    TreasuryClaimsOrdinal(TreasuryClaimsOrdinal),
    TreasuryClaimsAuthority,
    TreasuryClaim(TreasuryClaim),
    TokenAuthority,
    Mint(TokenMint),
    TokenAccount(TokenHolding),
}

/// A record at an address, with the lamports that back its storage.
pub struct Account {
    pub address: Address,
    pub lamports: u64,
    pub space: usize,
    pub record: Record,
}

} // verus!
