//! Creating, resizing and closing records. A record's lamports are what its
//! storage costs; they come from a payer and go back to a principal on close.

use vstd::prelude::*;
use crate::address::Address;
use crate::error::ErrorCode;
use crate::ledger::{Ledger, lamports_at, credited, debited, with_lamports};
use crate::state::{
    Account, Ask, Organization, Record, rent_exempt_minimum, rent_of, text_len, text_len_of, ASK_HEADER_SIZE,
    AUTHORITY_SIZE, CLAIMS_ORDINAL_SIZE, DISCRIMINATOR_SIZE, GLOBAL_SIZE, MAX_ACCOUNT_SIZE,
    MEMBERSHIP_SIZE, MINT_SIZE, TEXT_PREFIX_SIZE, TOKEN_ACCOUNT_SIZE, TREASURY_CLAIM_SIZE, USER_SIZE,
};

verus! {

/// The largest growth of a record in one resize.
pub const MAX_RESIZE_INCREASE: usize = 10240;

/// The storage a record's fields take, type tag included.
pub open spec fn record_size(r: Record) -> nat {
    match r {
        Record::Wallet => 0,
        Record::User(_) => USER_SIZE as nat,
        Record::Ask(a) => Ask::spec_size(text_len(a.content@)),
        Record::Global(_) => GLOBAL_SIZE as nat,
        Record::Organization(o) => Organization::spec_size(text_len(o.alias@)),
        Record::Membership => MEMBERSHIP_SIZE as nat,
        Record::TreasuryClaimsOrdinal(_) => CLAIMS_ORDINAL_SIZE as nat,
        Record::TreasuryClaimsAuthority => AUTHORITY_SIZE as nat,
        Record::TreasuryClaim(_) => TREASURY_CLAIM_SIZE as nat,
        Record::TokenAuthority => AUTHORITY_SIZE as nat,
        Record::Mint(_) => MINT_SIZE as nat,
        Record::TokenAccount(_) => TOKEN_ACCOUNT_SIZE as nat,
    }
}

/// Whether `space` bytes hold the record's fields.
pub fn record_fits(r: &Record, space: usize) -> (b: bool)
    ensures
        b == (record_size(*r) <= space),
{
    match r {
        Record::Ask(a) => {
            let len = text_len_of(&a.content);
            len <= space && ASK_HEADER_SIZE + TEXT_PREFIX_SIZE <= space - len
        },
        Record::Organization(o) => {
            let len = text_len_of(&o.alias);
            len <= space && DISCRIMINATOR_SIZE + TEXT_PREFIX_SIZE <= space - len
        },
        Record::Wallet => true,
        Record::User(_) => USER_SIZE <= space,
        Record::Global(_) => GLOBAL_SIZE <= space,
        Record::Membership => MEMBERSHIP_SIZE <= space,
        Record::TreasuryClaimsOrdinal(_) => CLAIMS_ORDINAL_SIZE <= space,
        Record::TreasuryClaimsAuthority => AUTHORITY_SIZE <= space,
        Record::TreasuryClaim(_) => TREASURY_CLAIM_SIZE <= space,
        Record::TokenAuthority => AUTHORITY_SIZE <= space,
        Record::Mint(_) => MINT_SIZE <= space,
        Record::TokenAccount(_) => TOKEN_ACCOUNT_SIZE <= space,
    }
}

/// The map after `payer` funds a new record `acct`.
pub open spec fn created(m: Map<Seq<u8>, Account>, payer: Seq<u8>, acct: Account) -> Map<Seq<u8>, Account> {
    debited(m, payer, acct.lamports).insert(acct.address@, acct)
}

/// The map after the record at `k` takes `new_space` bytes, settling the
/// difference in rent with `payer`: a grown record is topped up to its new
/// rent from the payer, a shrunk one pays its excess back to the payer.
pub open spec fn resized(m: Map<Seq<u8>, Account>, k: Seq<u8>, payer: Address, new_space: usize) -> Map<Seq<u8>, Account> {
    let acct = m[k];
    let rent = rent_of(new_space as nat);
    if new_space == acct.space {
        m
    } else if new_space > acct.space {
        if rent > acct.lamports {
            let top_up = (rent - acct.lamports) as u64;
            let paid = debited(m, payer@, top_up);
            paid.insert(k, Account { space: new_space, lamports: (paid[k].lamports + top_up) as u64, ..paid[k] })
        } else {
            m.insert(k, Account { space: new_space, ..acct })
        }
    } else {
        let excess = (acct.lamports - rent) as u64;
        credited(m.insert(k, Account { space: new_space, lamports: rent as u64, ..acct }), payer, excess)
    }
}

/// The error a resize reports, if any.
pub open spec fn resize_error(m: Map<Seq<u8>, Account>, k: Seq<u8>, payer: Address, new_space: usize) -> Option<ErrorCode> {
    let acct = m[k];
    let rent = rent_of(new_space as nat);
    if !m.contains_key(k) {
        Some(ErrorCode::RecordNotFound)
    } else if new_space > MAX_ACCOUNT_SIZE || new_space > acct.space + MAX_RESIZE_INCREASE {
        Some(ErrorCode::SizeMismatch)
    } else if new_space == acct.space {
        None
    } else if new_space > acct.space {
        if rent > acct.lamports && lamports_at(m, payer@) < rent - acct.lamports {
            Some(ErrorCode::InsufficientFunds)
        } else {
            None
        }
    } else if acct.lamports < rent {
        Some(ErrorCode::InsufficientFunds)
    } else if payer@ != k && lamports_at(m, payer@) + (acct.lamports - rent) > u64::MAX {
        Some(ErrorCode::ArithmeticOverflow)
    } else {
        None
    }
}

impl Ledger {
    /// Pays `amount` out of `from`.
    pub(crate) fn debit(&mut self, from: &Address, amount: u64) -> (r: Result<(), ErrorCode>)
        requires
            old(self).wf(),
        ensures
            final(self).wf(),
            final(self).same_config(old(self)),
            r is Ok <==> lamports_at(old(self)@, from@) >= amount,
            r is Ok ==> final(self)@ == debited(old(self)@, from@, amount),
            r is Err ==> r == Err::<(), ErrorCode>(ErrorCode::InsufficientFunds) && *final(self) == *old(self),
    {
        match self.find(from) {
            Some(i) => {
                let have = self.accounts[i].lamports;
                if have < amount {
                    return Err(ErrorCode::InsufficientFunds);
                }
                self.set_lamports_at(i, have - amount);
                Ok(())
            },
            None => {
                if amount > 0 {
                    return Err(ErrorCode::InsufficientFunds);
                }
                Ok(())
            },
        }
    }

    /// Pays `amount` into `to`, opening a wallet there if nothing is there.
    pub fn credit(&mut self, to: &Address, amount: u64) -> (r: Result<(), ErrorCode>)
        requires
            old(self).wf(),
        ensures
            final(self).wf(),
            final(self).same_config(old(self)),
            r is Ok <==> lamports_at(old(self)@, to@) + amount <= u64::MAX,
            r is Ok ==> final(self)@ == credited(old(self)@, *to, amount),
            r is Err ==> r == Err::<(), ErrorCode>(ErrorCode::ArithmeticOverflow) && *final(self) == *old(self),
    {
        match self.find(to) {
            Some(i) => {
                let have = self.accounts[i].lamports;
                if have > u64::MAX - amount {
                    return Err(ErrorCode::ArithmeticOverflow);
                }
                self.set_lamports_at(i, have + amount);
                Ok(())
            },
            None => {
                self.insert_new(Account { address: *to, lamports: amount, space: 0, record: Record::Wallet });
                Ok(())
            },
        }
    }

    /// Moves `amount` lamports from `from` to `to`.
    pub fn transfer(&mut self, from: &Address, to: &Address, amount: u64) -> (r: Result<(), ErrorCode>)
        requires
            old(self).wf(),
        ensures
            final(self).wf(),
            final(self).same_config(old(self)),
            r == (if lamports_at(old(self)@, from@) < amount {
                Err(ErrorCode::InsufficientFunds)
            } else if from@ != to@ && lamports_at(old(self)@, to@) + amount > u64::MAX {
                Err(ErrorCode::ArithmeticOverflow)
            } else {
                Ok::<(), ErrorCode>(())
            }),
            r is Ok ==> final(self)@ == credited(debited(old(self)@, from@, amount), *to, amount),
            r is Err ==> *final(self) == *old(self),
    {
        if self.balance(from) < amount {
            return Err(ErrorCode::InsufficientFunds);
        }
        if !from.same(to) && self.balance(to) > u64::MAX - amount {
            return Err(ErrorCode::ArithmeticOverflow);
        }
        match self.debit(from, amount) {
            Ok(()) => {},
            Err(e) => {
                proof {
                    assert(false);
                }
                return Err(e);
            },
        }
        match self.credit(to, amount) {
            Ok(()) => {},
            Err(e) => {
                proof {
                    assert(false);
                }
                return Err(e);
            },
        }
        Ok(())
    }

    /// Creates the record `record` of `space` bytes at `address`, funded by
    /// `payer` with the storage's rent.
    pub fn create_account(&mut self, payer: &Address, address: &Address, space: usize, record: Record) -> (r: Result<(), ErrorCode>)
        requires
            old(self).wf(),
        ensures
            final(self).wf(),
            final(self).same_config(old(self)),
            r == (if space > MAX_ACCOUNT_SIZE || record_size(record) > space {
                Err(ErrorCode::SizeMismatch)
            } else if old(self)@.contains_key(address@) {
                Err(ErrorCode::AddressAlreadyInUse)
            } else if lamports_at(old(self)@, payer@) < rent_of(space as nat) {
                Err(ErrorCode::InsufficientFunds)
            } else {
                Ok::<(), ErrorCode>(())
            }),
            r is Ok ==> final(self)@ == created(
                old(self)@,
                payer@,
                Account { address: *address, lamports: rent_of(space as nat) as u64, space, record },
            ),
            r is Err ==> *final(self) == *old(self),
    {
        if space > MAX_ACCOUNT_SIZE || !record_fits(&record, space) {
            return Err(ErrorCode::SizeMismatch);
        }
        if self.contains(address) {
            return Err(ErrorCode::AddressAlreadyInUse);
        }
        let rent = rent_exempt_minimum(space);
        match self.debit(payer, rent) {
            Ok(()) => {},
            Err(e) => return Err(e),
        }
        self.insert_new(Account { address: *address, lamports: rent, space, record });
        Ok(())
    }
}

impl Ledger {
    /// Creates two records at once, both funded by `payer`: either both are
    /// created or neither is.
    pub(crate) fn create_two(
        &mut self,
        payer: &Address,
        a: &Address,
        space_a: usize,
        record_a: Record,
        b: &Address,
        space_b: usize,
        record_b: Record,
    ) -> (r: Result<(), ErrorCode>)
        requires
            old(self).wf(),
            space_a <= MAX_ACCOUNT_SIZE,
            space_b <= MAX_ACCOUNT_SIZE,
            record_size(record_a) <= space_a,
            record_size(record_b) <= space_b,
        ensures
            final(self).wf(),
            final(self).same_config(old(self)),
            r == (if old(self)@.contains_key(a@) || old(self)@.contains_key(b@) || a@ == b@ {
                Err(ErrorCode::AddressAlreadyInUse)
            } else if lamports_at(old(self)@, payer@) < rent_of(space_a as nat) + rent_of(space_b as nat) {
                Err(ErrorCode::InsufficientFunds)
            } else {
                Ok::<(), ErrorCode>(())
            }),
            r is Ok ==> final(self)@ == created(
                created(
                    old(self)@,
                    payer@,
                    Account { address: *a, lamports: rent_of(space_a as nat) as u64, space: space_a, record: record_a },
                ),
                payer@,
                Account { address: *b, lamports: rent_of(space_b as nat) as u64, space: space_b, record: record_b },
            ),
            r is Err ==> *final(self) == *old(self),
    {
        if self.contains(a) || self.contains(b) || a.same(b) {
            return Err(ErrorCode::AddressAlreadyInUse);
        }
        let rent_a = rent_exempt_minimum(space_a);
        let rent_b = rent_exempt_minimum(space_b);
        if self.balance(payer) < rent_a + rent_b {
            return Err(ErrorCode::InsufficientFunds);
        }
        match self.create_account(payer, a, space_a, record_a) {
            Ok(()) => {},
            Err(e) => {
                proof {
                    assert(false);
                }
                return Err(e);
            },
        }
        match self.create_account(payer, b, space_b, record_b) {
            Ok(()) => {},
            Err(e) => {
                proof {
                    assert(false);
                }
                return Err(e);
            },
        }
        Ok(())
    }

    /// Gives the record at `address` `new_space` bytes of storage and
    /// settles the rent difference with `payer`.
    pub(crate) fn settle_resize(&mut self, address: &Address, payer: &Address, new_space: usize) -> (r: Result<(), ErrorCode>)
        requires
            old(self).wf(),
        ensures
            final(self).wf(),
            final(self).same_config(old(self)),
            r == (match resize_error(old(self)@, address@, *payer, new_space) {
                Some(e) => Err(e),
                None => Ok::<(), ErrorCode>(()),
            }),
            r is Ok ==> final(self)@ == resized(old(self)@, address@, *payer, new_space),
            r is Err ==> *final(self) == *old(self),
    {
        let i = match self.find(address) {
            Some(i) => i,
            None => return Err(ErrorCode::RecordNotFound),
        };
        let space = self.accounts[i].space;
        let lamports = self.accounts[i].lamports;
        if new_space > MAX_ACCOUNT_SIZE || (new_space > space && new_space - space > MAX_RESIZE_INCREASE) {
            return Err(ErrorCode::SizeMismatch);
        }
        if new_space == space {
            return Ok(());
        }
        let rent = rent_exempt_minimum(new_space);
        if new_space > space {
            if rent > lamports {
                let top_up = rent - lamports;
                match self.debit(payer, top_up) {
                    Ok(()) => {},
                    Err(e) => return Err(e),
                }
                let j = match self.find(address) {
                    Some(j) => j,
                    None => {
                        proof {
                            assert(false);
                        }
                        return Err(ErrorCode::RecordNotFound);
                    },
                };
                let now = self.accounts[j].lamports;
                self.set_space_lamports_at(j, new_space, now + top_up);
            } else {
                self.set_space_lamports_at(i, new_space, lamports);
            }
            Ok(())
        } else {
            if lamports < rent {
                return Err(ErrorCode::InsufficientFunds);
            }
            let excess = lamports - rent;
            if !payer.same(address) && self.balance(payer) > u64::MAX - excess {
                return Err(ErrorCode::ArithmeticOverflow);
            }
            self.set_space_lamports_at(i, new_space, rent);
            match self.credit(payer, excess) {
                Ok(()) => {},
                Err(e) => {
                    proof {
                        assert(false);
                    }
                    return Err(e);
                },
            }
            Ok(())
        }
    }

    /// Resizes the record at `address` to exactly `new_space` bytes, which
    /// must still hold its fields; the rent difference is settled with
    /// `payer`.
    pub fn resize_account(&mut self, address: &Address, payer: &Address, new_space: usize) -> (r: Result<(), ErrorCode>)
        requires
            old(self).wf(),
        ensures
            final(self).wf(),
            final(self).same_config(old(self)),
            r == (if !old(self)@.contains_key(address@) {
                Err(ErrorCode::RecordNotFound)
            } else if record_size(old(self)@[address@].record) > new_space {
                Err(ErrorCode::SizeMismatch)
            } else {
                match resize_error(old(self)@, address@, *payer, new_space) {
                    Some(e) => Err(e),
                    None => Ok::<(), ErrorCode>(()),
                }
            }),
            r is Ok ==> final(self)@ == resized(old(self)@, address@, *payer, new_space),
            r is Err ==> *final(self) == *old(self),
    {
        match self.find(address) {
            Some(i) => {
                if !record_fits(&self.accounts[i].record, new_space) {
                    return Err(ErrorCode::SizeMismatch);
                }
            },
            None => return Err(ErrorCode::RecordNotFound),
        }
        self.settle_resize(address, payer, new_space)
    }

    /// Closes the record at `address`: it is gone, and its lamports go to
    /// `refund_to`. Returns the lamports refunded.
    pub fn close_account(&mut self, address: &Address, refund_to: &Address) -> (r: Result<u64, ErrorCode>)
        requires
            old(self).wf(),
        ensures
            final(self).wf(),
            final(self).same_config(old(self)),
            r == (if !old(self)@.contains_key(address@) {
                Err(ErrorCode::RecordNotFound)
            } else if refund_to@ != address@ && lamports_at(old(self)@, refund_to@)
                + old(self)@[address@].lamports > u64::MAX {
                Err(ErrorCode::ArithmeticOverflow)
            } else {
                Ok(old(self)@[address@].lamports)
            }),
            r is Ok ==> final(self)@ == credited(
                old(self)@.remove(address@),
                *refund_to,
                old(self)@[address@].lamports,
            ),
            r is Err ==> *final(self) == *old(self),
    {
        let i = match self.find(address) {
            Some(i) => i,
            None => return Err(ErrorCode::RecordNotFound),
        };
        let lamports = self.accounts[i].lamports;
        if !refund_to.same(address) && self.balance(refund_to) > u64::MAX - lamports {
            return Err(ErrorCode::ArithmeticOverflow);
        }
        let _closed = self.remove_at(i);
        match self.credit(refund_to, lamports) {
            Ok(()) => {},
            Err(e) => {
                proof {
                    assert(false);
                }
                return Err(e);
            },
        }
        Ok(lamports)
    }
}

} // verus!
