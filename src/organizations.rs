//! Organizations, numbered by a global counter, each created together with
//! the membership of the principal who signs it up.

use vstd::prelude::*;
use crate::address::{
    Address, derived_address, global_address, global_seeds, membership_address,
    membership_seeds, organization_address, organization_seeds,
};
use crate::error::ErrorCode;
use crate::ledger::{Ledger, lamports_at};
use crate::lifecycle::created;
use crate::state::{
    Account, Global, Organization, Record, rent_of, text_len, text_len_of,
    DISCRIMINATOR_SIZE, GLOBAL_SIZE, MAX_ACCOUNT_SIZE, MEMBERSHIP_SIZE, TEXT_PREFIX_SIZE,
};

verus! {

/// Where the organization counter lives.
pub open spec fn global_key(program: Seq<u8>) -> Option<Seq<u8>> {
    derived_address(global_seeds(), program)
}

/// The organization counter at `k`, if one is there.
pub open spec fn global_in(m: Map<Seq<u8>, Account>, k: Seq<u8>) -> Option<Global> {
    if m.contains_key(k) {
        match m[k].record {
            Record::Global(g) => Some(g),
            _ => None,
        }
    } else {
        None
    }
}

/// Why signing up an organization named `alias` for `member` would fail, if
/// it would.
pub open spec fn sign_up_error(m: Map<Seq<u8>, Account>, program: Seq<u8>, member: Seq<u8>, alias: Seq<char>) -> Option<ErrorCode> {
    match global_key(program) {
        None => Some(ErrorCode::InvalidSeeds),
        Some(gk) => match global_in(m, gk) {
            None => Some(ErrorCode::RecordNotFound),
            Some(g) => if g.running_organization_ordinal == u64::MAX {
                Some(ErrorCode::ArithmeticOverflow)
            } else {
                let ordinal = g.running_organization_ordinal;
                match (
                    derived_address(organization_seeds(ordinal), program),
                    derived_address(membership_seeds(ordinal, member), program),
                ) {
                    (Some(ok), Some(mk)) => if text_len(alias) + DISCRIMINATOR_SIZE + TEXT_PREFIX_SIZE > MAX_ACCOUNT_SIZE {
                        Some(ErrorCode::SizeMismatch)
                    } else if m.contains_key(ok) || m.contains_key(mk) || ok == mk {
                        Some(ErrorCode::AddressAlreadyInUse)
                    } else if lamports_at(m, member) < rent_of(Organization::spec_size(text_len(alias)))
                        + rent_of(MEMBERSHIP_SIZE as nat) {
                        Some(ErrorCode::InsufficientFunds)
                    } else {
                        None
                    },
                    _ => Some(ErrorCode::InvalidSeeds),
                }
            },
        },
    }
}

impl Ledger {
    /// Creates the organization counter at zero, paid for by `payer`.
    /// Returns where it is.
    pub fn initialize_global(&mut self, payer: &Address) -> (r: Result<Address, ErrorCode>)
        requires
            old(self).wf(),
        ensures
            final(self).wf(),
            final(self).same_config(old(self)),
            match r {
                Ok(a) => global_key(old(self).program@) == Some(a@)
                    && final(self)@ == created(
                        old(self)@,
                        payer@,
                        Account {
                            address: a,
                            lamports: rent_of(GLOBAL_SIZE as nat) as u64,
                            space: GLOBAL_SIZE,
                            record: Record::Global(Global { running_organization_ordinal: 0 }),
                        },
                    ),
                Err(e) => *final(self) == *old(self) && match global_key(old(self).program@) {
                    None => e == ErrorCode::InvalidSeeds,
                    Some(gk) => if old(self)@.contains_key(gk) {
                        e == ErrorCode::AddressAlreadyInUse
                    } else {
                        e == ErrorCode::InsufficientFunds
                            && lamports_at(old(self)@, payer@) < rent_of(GLOBAL_SIZE as nat)
                    },
                },
            },
    {
        let ga = match global_address(&self.program) {
            Some(a) => a,
            None => return Err(ErrorCode::InvalidSeeds),
        };
        let record = Record::Global(Global { running_organization_ordinal: 0 });
        match self.create_account(payer, &ga, GLOBAL_SIZE, record) {
            Ok(()) => Ok(ga),
            Err(e) => Err(e),
        }
    }

    /// Signs up an organization named `alias` under the next organization
    /// ordinal, with `member` as its first member and payer, and advances
    /// the ordinal. Returns where the organization and the membership are.
    pub fn sign_up_organization(&mut self, member: &Address, alias: String) -> (r: Result<(Address, Address), ErrorCode>)
        requires
            old(self).wf(),
        ensures
            final(self).wf(),
            final(self).same_config(old(self)),
            match r {
                Ok((oa, ma)) => {
                    let gk = global_key(old(self).program@)->Some_0;
                    let g = global_in(old(self)@, gk)->Some_0;
                    let ordinal = g.running_organization_ordinal;
                    let space = Organization::spec_size(text_len(alias@));
                    let both = created(
                        created(old(self)@, member@, Account {
                            address: oa,
                            lamports: rent_of(space) as u64,
                            space: space as usize,
                            record: Record::Organization(Organization { alias }),
                        }),
                        member@,
                        Account {
                            address: ma,
                            lamports: rent_of(MEMBERSHIP_SIZE as nat) as u64,
                            space: MEMBERSHIP_SIZE,
                            record: Record::Membership,
                        },
                    );
                    &&& sign_up_error(old(self)@, old(self).program@, member@, alias@) is None
                    &&& derived_address(organization_seeds(ordinal), old(self).program@) == Some(oa@)
                    &&& derived_address(membership_seeds(ordinal, member@), old(self).program@) == Some(ma@)
                    &&& final(self)@ == both.insert(gk, Account {
                        record: Record::Global(Global { running_organization_ordinal: (ordinal + 1) as u64 }),
                        ..both[gk]
                    })
                },
                Err(e) => sign_up_error(old(self)@, old(self).program@, member@, alias@) == Some(e)
                    && *final(self) == *old(self),
            },
    {
        let ga = match global_address(&self.program) {
            Some(a) => a,
            None => return Err(ErrorCode::InvalidSeeds),
        };
        let ordinal = match self.get(&ga) {
            Some(acct) => match acct.record {
                Record::Global(g) => g.running_organization_ordinal,
                _ => return Err(ErrorCode::RecordNotFound),
            },
            None => return Err(ErrorCode::RecordNotFound),
        };
        if ordinal == u64::MAX {
            return Err(ErrorCode::ArithmeticOverflow);
        }
        let oa = organization_address(&self.program, ordinal);
        let ma = membership_address(&self.program, ordinal, member);
        let (oa, ma) = match (oa, ma) {
            (Some(o), Some(m)) => (o, m),
            _ => return Err(ErrorCode::InvalidSeeds),
        };
        let len = text_len_of(&alias);
        if len > MAX_ACCOUNT_SIZE - DISCRIMINATOR_SIZE - TEXT_PREFIX_SIZE {
            return Err(ErrorCode::SizeMismatch);
        }
        let space = Organization::size(len);
        let organization = Record::Organization(Organization { alias });
        match self.create_two(member, &oa, space, organization, &ma, MEMBERSHIP_SIZE, Record::Membership) {
            Ok(()) => {},
            Err(e) => return Err(e),
        }
        let gi = match self.find(&ga) {
            Some(i) => i,
            None => {
                proof {
                    assert(false);
                }
                return Err(ErrorCode::RecordNotFound);
            },
        };
        self.set_record_at(gi, Record::Global(Global { running_organization_ordinal: ordinal + 1 }));
        Ok((oa, ma))
    }
}

} // verus!
