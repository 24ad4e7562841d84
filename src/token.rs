//! The fungible token: bought from the community treasury one token per
//! lamport, minted under a program-derived authority.

use vstd::prelude::*;
use crate::address::{
    Address, derived_address, holding_address, holding_seeds, token_authority_address,
    token_authority_seeds, token_mint_address, token_mint_seeds,
};
use crate::error::ErrorCode;
use crate::ledger::{Ledger, lamports_at, credited, debited};
use crate::lifecycle::created;
use crate::state::{
    Account, Record, TokenHolding, TokenMint, rent_of, rent_exempt_minimum, AUTHORITY_SIZE,
    MINT_SIZE, TOKEN_ACCOUNT_SIZE, TOKEN_DECIMALS,
};
use crate::treasury::{Capability, holding_in, mint_in, minted};

verus! {

/// Where the token mint lives.
pub open spec fn token_mint_key(program: Seq<u8>) -> Option<Seq<u8>> {
    derived_address(token_mint_seeds(), program)
}

/// Where the token authority lives.
pub open spec fn token_authority_key(program: Seq<u8>) -> Option<Seq<u8>> {
    derived_address(token_authority_seeds(), program)
}

/// Where a purchase's tokens went.
pub struct TokenPurchase {
    pub mint: Address,
    /// The buyer's holding of the token.
    pub holding: Address,
}

/// Why a purchase of `amount` tokens by `buyer`, paid to `destination`,
/// would fail, if it would.
pub open spec fn acquire_error(l: Ledger, buyer: Seq<u8>, destination: Seq<u8>, amount: u64) -> Option<ErrorCode> {
    let m = l@;
    if lamports_at(m, buyer) < amount {
        Some(ErrorCode::InsufficientFunds)
    } else if destination != l.treasury@ {
        Some(ErrorCode::InvalidDestination)
    } else {
        match (token_mint_key(l.program@), token_authority_key(l.program@)) {
            (Some(tk), Some(ak)) => match mint_in(m, tk) {
                None => Some(ErrorCode::RecordNotFound),
                Some(t) => if !(m.contains_key(ak) && m[ak].record is TokenAuthority) {
                    Some(ErrorCode::RecordNotFound)
                } else if t.authority@ != ak {
                    Some(ErrorCode::Unauthorized)
                } else {
                    match derived_address(holding_seeds(buyer, l.token_program@, tk), l.associated_token_program@) {
                        None => Some(ErrorCode::InvalidSeeds),
                        Some(hk) => {
                            let overflows = |held: u64|
                                (buyer != destination && lamports_at(m, destination) + amount > u64::MAX)
                                    || t.supply + amount > u64::MAX || held + amount > u64::MAX;
                            if m.contains_key(hk) {
                                match holding_in(m, hk) {
                                    Some(h) => if h.mint@ != tk || h.owner@ != buyer {
                                        Some(ErrorCode::RecordNotFound)
                                    } else if overflows(h.amount) {
                                        Some(ErrorCode::ArithmeticOverflow)
                                    } else {
                                        None
                                    },
                                    None => Some(ErrorCode::RecordNotFound),
                                }
                            } else if hk == buyer || hk == destination {
                                Some(ErrorCode::AddressAlreadyInUse)
                            } else if lamports_at(m, buyer) < amount + rent_of(TOKEN_ACCOUNT_SIZE as nat) {
                                Some(ErrorCode::InsufficientFunds)
                            } else if overflows(0) {
                                Some(ErrorCode::ArithmeticOverflow)
                            } else {
                                None
                            }
                        },
                    }
                },
            },
            _ => Some(ErrorCode::InvalidSeeds),
        }
    }
}

/// The records after a purchase: the buyer's holding is opened at the
/// buyer's cost if it was not there, the price moves to the treasury, and
/// `amount` tokens are minted into the holding.
pub open spec fn acquire_effect(l: Ledger, buyer: Address, amount: u64, p: TokenPurchase) -> Map<Seq<u8>, Account> {
    let m1 = if l@.contains_key(p.holding@) {
        l@
    } else {
        created(l@, buyer@, Account {
            address: p.holding,
            lamports: rent_of(TOKEN_ACCOUNT_SIZE as nat) as u64,
            space: TOKEN_ACCOUNT_SIZE,
            record: Record::TokenAccount(TokenHolding { mint: p.mint, owner: buyer, amount: 0 }),
        })
    };
    let m2 = credited(debited(m1, buyer@, amount), l.treasury, amount);
    minted(m2, p.mint@, p.holding@, amount)
}

impl Ledger {
    /// Creates the token mint, with no supply and governed by the token
    /// authority, and the token authority, both paid for by `payer`. Returns
    /// where they are.
    pub fn initialize_token(&mut self, payer: &Address) -> (r: Result<(Address, Address), ErrorCode>)
        requires
            old(self).wf(),
        ensures
            final(self).wf(),
            final(self).same_config(old(self)),
            match r {
                Ok((tk, ak)) => token_mint_key(old(self).program@) == Some(tk@)
                    && token_authority_key(old(self).program@) == Some(ak@)
                    && final(self)@ == created(
                        created(old(self)@, payer@, Account {
                            address: tk,
                            lamports: rent_of(MINT_SIZE as nat) as u64,
                            space: MINT_SIZE,
                            record: Record::Mint(TokenMint { authority: ak, supply: 0, decimals: TOKEN_DECIMALS }),
                        }),
                        payer@,
                        Account {
                            address: ak,
                            lamports: rent_of(AUTHORITY_SIZE as nat) as u64,
                            space: AUTHORITY_SIZE,
                            record: Record::TokenAuthority,
                        },
                    ),
                Err(e) => *final(self) == *old(self) && match (token_mint_key(old(self).program@), token_authority_key(old(self).program@)) {
                    (Some(tk), Some(ak)) => if old(self)@.contains_key(tk) || old(self)@.contains_key(ak) || tk == ak {
                        e == ErrorCode::AddressAlreadyInUse
                    } else {
                        e == ErrorCode::InsufficientFunds && lamports_at(old(self)@, payer@)
                            < rent_of(MINT_SIZE as nat) + rent_of(AUTHORITY_SIZE as nat)
                    },
                    _ => e == ErrorCode::InvalidSeeds,
                },
            },
    {
        let tk = token_mint_address(&self.program);
        let ak = token_authority_address(&self.program);
        let (tk, ak) = match (tk, ak) {
            (Some(t), Some(a)) => (t, a),
            _ => return Err(ErrorCode::InvalidSeeds),
        };
        let mint = Record::Mint(TokenMint { authority: ak, supply: 0, decimals: TOKEN_DECIMALS });
        match self.create_two(payer, &tk, MINT_SIZE, mint, &ak, AUTHORITY_SIZE, Record::TokenAuthority) {
            Ok(()) => Ok((tk, ak)),
            Err(e) => Err(e),
        }
    }

    /// Buys `amount` tokens for `buyer` at one lamport each, paid to
    /// `destination`, which must be the community treasury. The buyer's
    /// holding is opened at the buyer's cost if needed. Nothing changes on
    /// failure.
    pub fn acquire_token(&mut self, buyer: &Address, destination: &Address, amount: u64) -> (r: Result<TokenPurchase, ErrorCode>)
        requires
            old(self).wf(),
        ensures
            final(self).wf(),
            final(self).same_config(old(self)),
            match r {
                Ok(p) => {
                    &&& acquire_error(*old(self), buyer@, destination@, amount) is None
                    &&& token_mint_key(old(self).program@) == Some(p.mint@)
                    &&& derived_address(
                        holding_seeds(buyer@, old(self).token_program@, p.mint@),
                        old(self).associated_token_program@,
                    ) == Some(p.holding@)
                    &&& final(self)@ == acquire_effect(*old(self), *buyer, amount, p)
                },
                Err(e) => acquire_error(*old(self), buyer@, destination@, amount) == Some(e)
                    && *final(self) == *old(self),
            },
    {
        if self.balance(buyer) < amount {
            return Err(ErrorCode::InsufficientFunds);
        }
        if !destination.same(&self.treasury) {
            return Err(ErrorCode::InvalidDestination);
        }
        let tk = token_mint_address(&self.program);
        let ak = token_authority_address(&self.program);
        let (tk, ak) = match (tk, ak) {
            (Some(t), Some(a)) => (t, a),
            _ => return Err(ErrorCode::InvalidSeeds),
        };
        let t = match self.get(&tk) {
            Some(acct) => match acct.record {
                Record::Mint(t) => t,
                _ => return Err(ErrorCode::RecordNotFound),
            },
            None => return Err(ErrorCode::RecordNotFound),
        };
        match self.get(&ak) {
            Some(acct) => match acct.record {
                Record::TokenAuthority => {},
                _ => return Err(ErrorCode::RecordNotFound),
            },
            None => return Err(ErrorCode::RecordNotFound),
        }
        if !t.authority.same(&ak) {
            return Err(ErrorCode::Unauthorized);
        }
        let hk = match holding_address(&self.associated_token_program, buyer, &self.token_program, &tk) {
            Some(h) => h,
            None => return Err(ErrorCode::InvalidSeeds),
        };
        let exists = self.contains(&hk);
        let held = if exists {
            match self.get(&hk) {
                Some(acct) => match acct.record {
                    Record::TokenAccount(h) => {
                        if !h.mint.same(&tk) || !h.owner.same(buyer) {
                            return Err(ErrorCode::RecordNotFound);
                        }
                        h.amount
                    },
                    _ => return Err(ErrorCode::RecordNotFound),
                },
                None => return Err(ErrorCode::RecordNotFound),
            }
        } else {
            if hk.same(buyer) || hk.same(destination) {
                return Err(ErrorCode::AddressAlreadyInUse);
            }
            let holding_rent = rent_exempt_minimum(TOKEN_ACCOUNT_SIZE);
            if self.balance(buyer) - amount < holding_rent {
                return Err(ErrorCode::InsufficientFunds);
            }
            0
        };
        if (!buyer.same(destination) && self.balance(destination) > u64::MAX - amount)
            || t.supply > u64::MAX - amount || held > u64::MAX - amount {
            return Err(ErrorCode::ArithmeticOverflow);
        }
        if !exists {
            let holding = Record::TokenAccount(TokenHolding { mint: tk, owner: *buyer, amount: 0 });
            match self.create_account(buyer, &hk, TOKEN_ACCOUNT_SIZE, holding) {
                Ok(()) => {},
                Err(e) => {
                    proof {
                        assert(false);
                    }
                    return Err(e);
                },
            }
        }
        let treasury = self.treasury;
        match self.transfer(buyer, &treasury, amount) {
            Ok(()) => {},
            Err(e) => {
                proof {
                    assert(false);
                }
                return Err(e);
            },
        }
        let cap = Capability { authority: ak };
        match self.mint_to(&cap, &tk, &hk, amount) {
            Ok(()) => {},
            Err(e) => {
                proof {
                    assert(false);
                }
                return Err(e);
            },
        }
        Ok(TokenPurchase { mint: tk, holding: hk })
    }
}

} // verus!
