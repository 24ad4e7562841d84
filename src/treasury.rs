//! Treasury claims: a deposit to the community treasury mints one unit of a
//! fresh token, addressed by the next global claim ordinal, to the depositor,
//! and records what was deposited. Minting is authorized by a program-derived
//! authority whose capability only this crate can construct.

use vstd::prelude::*;
use crate::address::{
    Address, claim_mint_address, claim_mint_seeds, claim_record_address, claim_record_seeds,
    claims_authority_address, claims_authority_seeds, claims_counter_address,
    claims_counter_seeds, derived_address, holding_address, holding_seeds,
};
use crate::error::ErrorCode;
use crate::ledger::{Ledger, lamports_at, credited, debited};
use crate::lifecycle::created;
use crate::state::{
    Account, Record, TokenHolding, TokenMint, TreasuryClaim, TreasuryClaimsOrdinal,
    TreasuryCurrency, rent_of, rent_exempt_minimum, AUTHORITY_SIZE, CLAIMS_ORDINAL_SIZE,
    MINT_SIZE, TOKEN_ACCOUNT_SIZE, TREASURY_CLAIM_SIZE,
};

verus! {

/// The power to sign as a program-derived authority. Only this crate makes
/// one, inside the operation that uses it, from the authority's own record.
pub(crate) struct Capability {
    pub(crate) authority: Address,
}

/// The claims counter at `k`, if one is there.
pub open spec fn counter_in(m: Map<Seq<u8>, Account>, k: Seq<u8>) -> Option<TreasuryClaimsOrdinal> {
    if m.contains_key(k) {
        match m[k].record {
            Record::TreasuryClaimsOrdinal(c) => Some(c),
            _ => None,
        }
    } else {
        None
    }
}

/// The token mint at `k`, if one is there.
pub open spec fn mint_in(m: Map<Seq<u8>, Account>, k: Seq<u8>) -> Option<TokenMint> {
    if m.contains_key(k) {
        match m[k].record {
            Record::Mint(t) => Some(t),
            _ => None,
        }
    } else {
        None
    }
}

/// The token holding at `k`, if one is there.
pub open spec fn holding_in(m: Map<Seq<u8>, Account>, k: Seq<u8>) -> Option<TokenHolding> {
    if m.contains_key(k) {
        match m[k].record {
            Record::TokenAccount(h) => Some(h),
            _ => None,
        }
    } else {
        None
    }
}

/// Why minting `amount` of the mint at `mint` into the holding at `holding`,
/// signed by `authority`, would fail, if it would.
pub open spec fn mint_error(m: Map<Seq<u8>, Account>, authority: Seq<u8>, mint: Seq<u8>, holding: Seq<u8>, amount: u64) -> Option<ErrorCode> {
    match (mint_in(m, mint), holding_in(m, holding)) {
        (Some(t), Some(h)) => if t.authority@ != authority {
            Some(ErrorCode::Unauthorized)
        } else if h.mint@ != mint {
            Some(ErrorCode::RecordNotFound)
        } else if t.supply + amount > u64::MAX || h.amount + amount > u64::MAX {
            Some(ErrorCode::ArithmeticOverflow)
        } else {
            None
        },
        _ => Some(ErrorCode::RecordNotFound),
    }
}

/// The map after `amount` tokens of `mint` are minted into `holding`.
pub open spec fn minted(m: Map<Seq<u8>, Account>, mint: Seq<u8>, holding: Seq<u8>, amount: u64) -> Map<Seq<u8>, Account> {
    let t = mint_in(m, mint)->Some_0;
    let h = holding_in(m, holding)->Some_0;
    m.insert(mint, Account { record: Record::Mint(TokenMint { supply: (t.supply + amount) as u64, ..t }), ..m[mint] })
        .insert(holding, Account { record: Record::TokenAccount(TokenHolding { amount: (h.amount + amount) as u64, ..h }), ..m[holding] })
}

/// Where the claims counter lives.
pub open spec fn counter_key(program: Seq<u8>) -> Option<Seq<u8>> {
    derived_address(claims_counter_seeds(), program)
}

/// Where the claims authority lives.
pub open spec fn authority_key(program: Seq<u8>) -> Option<Seq<u8>> {
    derived_address(claims_authority_seeds(), program)
}

/// What a successful deposit hands back: the claim's ordinal and where its
/// pieces are.
pub struct ClaimReceipt {
    pub ordinal: u64,
    /// The mint of the claim token.
    pub mint: Address,
    /// The depositor's holding of the claim token.
    pub holding: Address,
    /// The treasury claim record.
    pub record: Address,
    /// The authority that governs the claim mint.
    pub authority: Address,
}

/// The total a deposit of `amount` costs its depositor: the amount and the
/// rent of the mint, the holding and the claim record.
pub open spec fn deposit_cost(amount: u64) -> nat {
    (amount + rent_of(MINT_SIZE as nat) + rent_of(TOKEN_ACCOUNT_SIZE as nat) + rent_of(TREASURY_CLAIM_SIZE as nat)) as nat
}

/// Why a deposit of `amount` by `depositor` to `destination` would fail, if
/// it would.
pub open spec fn deposit_error(l: Ledger, depositor: Seq<u8>, destination: Seq<u8>, amount: u64) -> Option<ErrorCode> {
    let m = l@;
    if lamports_at(m, depositor) < amount {
        Some(ErrorCode::InsufficientFunds)
    } else if destination != l.treasury@ {
        Some(ErrorCode::InvalidDestination)
    } else {
        match (counter_key(l.program@), authority_key(l.program@)) {
            (Some(ck), Some(ak)) => match counter_in(m, ck) {
                None => Some(ErrorCode::RecordNotFound),
                Some(c) => if !(m.contains_key(ak) && m[ak].record is TreasuryClaimsAuthority) {
                    Some(ErrorCode::RecordNotFound)
                } else if c.claims_issued == u64::MAX {
                    Some(ErrorCode::ArithmeticOverflow)
                } else {
                    let ordinal = (c.claims_issued + 1) as u64;
                    match derived_address(claim_mint_seeds(ordinal), l.program@) {
                        None => Some(ErrorCode::InvalidSeeds),
                        Some(mk) => match (
                            derived_address(holding_seeds(depositor, l.token_program@, mk), l.associated_token_program@),
                            derived_address(claim_record_seeds(ordinal), l.program@),
                        ) {
                            (Some(hk), Some(rk)) => if m.contains_key(mk) || m.contains_key(hk) || m.contains_key(rk)
                                || mk == hk || mk == rk || hk == rk
                                || depositor == mk || depositor == hk || depositor == rk
                                || destination == mk || destination == hk || destination == rk {
                                Some(ErrorCode::AddressAlreadyInUse)
                            } else if lamports_at(m, depositor) < deposit_cost(amount) {
                                Some(ErrorCode::InsufficientFunds)
                            } else if depositor != destination && lamports_at(m, destination) + amount > u64::MAX {
                                Some(ErrorCode::ArithmeticOverflow)
                            } else {
                                None
                            },
                            _ => Some(ErrorCode::InvalidSeeds),
                        },
                    }
                },
            },
            _ => Some(ErrorCode::InvalidSeeds),
        }
    }
}

/// The records after a deposit whose claim is described by `c`: the mint,
/// the holding and the claim record are created at the depositor's cost,
/// the amount moves to the treasury, one claim token is minted to the
/// depositor, and the counter advances to the claim's ordinal.
pub open spec fn deposit_effect(l: Ledger, depositor: Address, amount: u64, timestamp: i64, c: ClaimReceipt) -> Map<Seq<u8>, Account> {
    let ck = counter_key(l.program@)->Some_0;
    let m1 = created(l@, depositor@, Account {
        address: c.mint,
        lamports: rent_of(MINT_SIZE as nat) as u64,
        space: MINT_SIZE,
        record: Record::Mint(TokenMint { authority: c.authority, supply: 0, decimals: 0 }),
    });
    let m2 = created(m1, depositor@, Account {
        address: c.holding,
        lamports: rent_of(TOKEN_ACCOUNT_SIZE as nat) as u64,
        space: TOKEN_ACCOUNT_SIZE,
        record: Record::TokenAccount(TokenHolding { mint: c.mint, owner: depositor, amount: 0 }),
    });
    let m3 = created(m2, depositor@, Account {
        address: c.record,
        lamports: rent_of(TREASURY_CLAIM_SIZE as nat) as u64,
        space: TREASURY_CLAIM_SIZE,
        record: Record::TreasuryClaim(TreasuryClaim {
            ordinal: c.ordinal,
            unit_of_value: TreasuryCurrency::SOL,
            deposit_amount: amount,
            deposit_timestamp: timestamp,
        }),
    });
    let m4 = credited(debited(m3, depositor@, amount), l.treasury, amount);
    let m5 = minted(m4, c.mint@, c.holding@, 1);
    m5.insert(ck, Account {
        record: Record::TreasuryClaimsOrdinal(TreasuryClaimsOrdinal { claims_issued: c.ordinal }),
        ..m5[ck]
    })
}

/// `post` is `pre` after a deposit of `amount` by `depositor` to
/// `destination` issued the claim `c`: its ordinal follows the counter's,
/// its pieces sit at the addresses derived from that ordinal, and the
/// records change as `deposit_effect` says.
pub open spec fn deposited(pre: Ledger, post: Ledger, depositor: Address, destination: Seq<u8>, amount: u64, timestamp: i64, c: ClaimReceipt) -> bool {
    let ck = counter_key(pre.program@)->Some_0;
    &&& post.same_config(&pre)
    &&& deposit_error(pre, depositor@, destination, amount) is None
    &&& c.ordinal == counter_in(pre@, ck)->Some_0.claims_issued + 1
    &&& derived_address(claim_mint_seeds(c.ordinal), pre.program@) == Some(c.mint@)
    &&& derived_address(
        holding_seeds(depositor@, pre.token_program@, c.mint@),
        pre.associated_token_program@,
    ) == Some(c.holding@)
    &&& derived_address(claim_record_seeds(c.ordinal), pre.program@) == Some(c.record@)
    &&& authority_key(pre.program@) == Some(c.authority@)
    &&& post@ == deposit_effect(pre, depositor, amount, timestamp, c)
}

impl Ledger {
    /// The capability of the claims authority, made from its record.
    fn claims_authority_capability(&self) -> (r: Result<Capability, ErrorCode>)
        requires
            self.wf(),
        ensures
            match r {
                Ok(cap) => authority_key(self.program@) == Some(cap.authority@)
                    && self@.contains_key(cap.authority@)
                    && self@[cap.authority@].record is TreasuryClaimsAuthority,
                Err(e) => match authority_key(self.program@) {
                    None => e == ErrorCode::InvalidSeeds,
                    Some(ak) => e == ErrorCode::RecordNotFound
                        && !(self@.contains_key(ak) && self@[ak].record is TreasuryClaimsAuthority),
                },
            },
    {
        let authority = match claims_authority_address(&self.program) {
            Some(a) => a,
            None => return Err(ErrorCode::InvalidSeeds),
        };
        match self.get(&authority) {
            Some(acct) => match acct.record {
                Record::TreasuryClaimsAuthority => Ok(Capability { authority }),
                _ => Err(ErrorCode::RecordNotFound),
            },
            None => Err(ErrorCode::RecordNotFound),
        }
    }

    /// Mints `amount` tokens of the mint at `mint` into the holding at
    /// `holding`, signed with `cap`.
    pub(crate) fn mint_to(&mut self, cap: &Capability, mint: &Address, holding: &Address, amount: u64) -> (r: Result<(), ErrorCode>)
        requires
            old(self).wf(),
        ensures
            final(self).wf(),
            final(self).same_config(old(self)),
            r == (match mint_error(old(self)@, cap.authority@, mint@, holding@, amount) {
                Some(e) => Err(e),
                None => Ok::<(), ErrorCode>(()),
            }),
            r is Ok ==> final(self)@ == minted(old(self)@, mint@, holding@, amount),
            r is Err ==> *final(self) == *old(self),
    {
        let mi = match self.find(mint) {
            Some(i) => i,
            None => return Err(ErrorCode::RecordNotFound),
        };
        let hi = match self.find(holding) {
            Some(i) => i,
            None => return Err(ErrorCode::RecordNotFound),
        };
        let t = match &self.accounts[mi].record {
            Record::Mint(t) => *t,
            _ => return Err(ErrorCode::RecordNotFound),
        };
        let h = match &self.accounts[hi].record {
            Record::TokenAccount(h) => *h,
            _ => return Err(ErrorCode::RecordNotFound),
        };
        if !t.authority.same(&cap.authority) {
            return Err(ErrorCode::Unauthorized);
        }
        if !h.mint.same(mint) {
            return Err(ErrorCode::RecordNotFound);
        }
        if t.supply > u64::MAX - amount || h.amount > u64::MAX - amount {
            return Err(ErrorCode::ArithmeticOverflow);
        }
        assert(mint@ != holding@);
        self.set_record_at(mi, Record::Mint(TokenMint { supply: t.supply + amount, ..t }));
        proof {
            self.lemma_view_at(hi as int);
        }
        self.set_record_at(hi, Record::TokenAccount(TokenHolding { amount: h.amount + amount, ..h }));
        Ok(())
    }
}

impl Ledger {
    /// Creates the claims counter, at zero claims issued, and the claims
    /// authority, both paid for by `payer`. Returns where they are.
    pub fn initialize_treasury_claims(&mut self, payer: &Address) -> (r: Result<(Address, Address), ErrorCode>)
        requires
            old(self).wf(),
        ensures
            final(self).wf(),
            final(self).same_config(old(self)),
            match r {
                Ok((ck, ak)) => counter_key(old(self).program@) == Some(ck@)
                    && authority_key(old(self).program@) == Some(ak@)
                    && final(self)@ == created(
                        created(old(self)@, payer@, Account {
                            address: ck,
                            lamports: rent_of(CLAIMS_ORDINAL_SIZE as nat) as u64,
                            space: CLAIMS_ORDINAL_SIZE,
                            record: Record::TreasuryClaimsOrdinal(TreasuryClaimsOrdinal { claims_issued: 0 }),
                        }),
                        payer@,
                        Account {
                            address: ak,
                            lamports: rent_of(AUTHORITY_SIZE as nat) as u64,
                            space: AUTHORITY_SIZE,
                            record: Record::TreasuryClaimsAuthority,
                        },
                    ),
                Err(e) => *final(self) == *old(self) && match (counter_key(old(self).program@), authority_key(old(self).program@)) {
                    (Some(ck), Some(ak)) => if old(self)@.contains_key(ck) || old(self)@.contains_key(ak) || ck == ak {
                        e == ErrorCode::AddressAlreadyInUse
                    } else {
                        e == ErrorCode::InsufficientFunds && lamports_at(old(self)@, payer@)
                            < rent_of(CLAIMS_ORDINAL_SIZE as nat) + rent_of(AUTHORITY_SIZE as nat)
                    },
                    _ => e == ErrorCode::InvalidSeeds,
                },
            },
    {
        let ck = claims_counter_address(&self.program);
        let ak = claims_authority_address(&self.program);
        let (ck, ak) = match (ck, ak) {
            (Some(c), Some(a)) => (c, a),
            _ => return Err(ErrorCode::InvalidSeeds),
        };
        let counter = Record::TreasuryClaimsOrdinal(TreasuryClaimsOrdinal { claims_issued: 0 });
        match self.create_two(
            payer,
            &ck,
            CLAIMS_ORDINAL_SIZE,
            counter,
            &ak,
            AUTHORITY_SIZE,
            Record::TreasuryClaimsAuthority,
        ) {
            Ok(()) => {},
            Err(e) => return Err(e),
        }
        Ok((ck, ak))
    }

    /// Deposits `amount` lamports of `depositor` to the community treasury
    /// and issues a treasury claim for it: the claim takes the next global
    /// ordinal, one unit of a fresh mint addressed by that ordinal is minted
    /// to the depositor, and a claim record keeps the ordinal, the unit of
    /// value, the amount and `timestamp`. The depositor also pays the rent
    /// of the three new records. Nothing changes on failure.
    pub fn deposit_sol(&mut self, depositor: &Address, destination: &Address, amount: u64, timestamp: i64) -> (r: Result<ClaimReceipt, ErrorCode>)
        requires
            old(self).wf(),
        ensures
            final(self).wf(),
            final(self).same_config(old(self)),
            match r {
                Ok(c) => deposited(*old(self), *final(self), *depositor, destination@, amount, timestamp, c),
                Err(e) => deposit_error(*old(self), depositor@, destination@, amount) == Some(e)
                    && *final(self) == *old(self),
            },
    {
        if self.balance(depositor) < amount {
            return Err(ErrorCode::InsufficientFunds);
        }
        if !destination.same(&self.treasury) {
            return Err(ErrorCode::InvalidDestination);
        }
        let ck = claims_counter_address(&self.program);
        let ak = claims_authority_address(&self.program);
        let ck = match (ck, ak) {
            (Some(c), Some(_)) => c,
            _ => return Err(ErrorCode::InvalidSeeds),
        };
        let issued = match self.get(&ck) {
            Some(acct) => match acct.record {
                Record::TreasuryClaimsOrdinal(c) => c.claims_issued,
                _ => return Err(ErrorCode::RecordNotFound),
            },
            None => return Err(ErrorCode::RecordNotFound),
        };
        let cap = match self.claims_authority_capability() {
            Ok(cap) => cap,
            Err(e) => return Err(e),
        };
        if issued == u64::MAX {
            return Err(ErrorCode::ArithmeticOverflow);
        }
        let ordinal = issued + 1;
        let mk = match claim_mint_address(&self.program, ordinal) {
            Some(a) => a,
            None => return Err(ErrorCode::InvalidSeeds),
        };
        let hk = holding_address(&self.associated_token_program, depositor, &self.token_program, &mk);
        let rk = claim_record_address(&self.program, ordinal);
        let (hk, rk) = match (hk, rk) {
            (Some(h), Some(r)) => (h, r),
            _ => return Err(ErrorCode::InvalidSeeds),
        };
        if self.contains(&mk) || self.contains(&hk) || self.contains(&rk) || mk.same(&hk) || mk.same(&rk)
            || hk.same(&rk) || depositor.same(&mk) || depositor.same(&hk) || depositor.same(&rk)
            || destination.same(&mk) || destination.same(&hk) || destination.same(&rk) {
            return Err(ErrorCode::AddressAlreadyInUse);
        }
        let mint_rent = rent_exempt_minimum(MINT_SIZE);
        let holding_rent = rent_exempt_minimum(TOKEN_ACCOUNT_SIZE);
        let record_rent = rent_exempt_minimum(TREASURY_CLAIM_SIZE);
        if self.balance(depositor) - amount < mint_rent + holding_rent + record_rent {
            return Err(ErrorCode::InsufficientFunds);
        }
        if !depositor.same(destination) && self.balance(destination) > u64::MAX - amount {
            return Err(ErrorCode::ArithmeticOverflow);
        }
        let mint = Record::Mint(TokenMint { authority: cap.authority, supply: 0, decimals: 0 });
        match self.create_account(depositor, &mk, MINT_SIZE, mint) {
            Ok(()) => {},
            Err(e) => {
                proof {
                    assert(false);
                }
                return Err(e);
            },
        }
        let holding = Record::TokenAccount(TokenHolding { mint: mk, owner: *depositor, amount: 0 });
        match self.create_account(depositor, &hk, TOKEN_ACCOUNT_SIZE, holding) {
            Ok(()) => {},
            Err(e) => {
                proof {
                    assert(false);
                }
                return Err(e);
            },
        }
        let claim = TreasuryClaim {
            ordinal,
            unit_of_value: TreasuryCurrency::SOL,
            deposit_amount: amount,
            deposit_timestamp: timestamp,
        };
        match self.create_account(depositor, &rk, TREASURY_CLAIM_SIZE, Record::TreasuryClaim(claim)) {
            Ok(()) => {},
            Err(e) => {
                proof {
                    assert(false);
                }
                return Err(e);
            },
        }
        let treasury = self.treasury;
        match self.transfer(depositor, &treasury, amount) {
            Ok(()) => {},
            Err(e) => {
                proof {
                    assert(false);
                }
                return Err(e);
            },
        }
        match self.mint_to(&cap, &mk, &hk, 1) {
            Ok(()) => {},
            Err(e) => {
                proof {
                    assert(false);
                }
                return Err(e);
            },
        }
        let ci = match self.find(&ck) {
            Some(i) => i,
            None => {
                proof {
                    assert(false);
                }
                return Err(ErrorCode::RecordNotFound);
            },
        };
        self.set_record_at(ci, Record::TreasuryClaimsOrdinal(TreasuryClaimsOrdinal { claims_issued: ordinal }));
        Ok(ClaimReceipt { ordinal, mint: mk, holding: hk, record: rk, authority: cap.authority })
    }
}

} // verus!
