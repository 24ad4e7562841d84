//! Identity records and the asks they own. An ask lives at the address
//! derived from its owner and the owner's running ordinal at placement.

use vstd::prelude::*;
use crate::address::{
    Address, ask_address, ask_seeds, derived_address, user_address, user_seeds,
};
use crate::error::ErrorCode;
use crate::ledger::{Ledger, lamports_at, credited};
use crate::lifecycle::{created, resize_error, resized};
use crate::state::{
    Account, Ask, Record, User, rent_of, text_len, text_len_of, ASK_HEADER_SIZE,
    MAX_ACCOUNT_SIZE, TEXT_PREFIX_SIZE, USER_SIZE,
};

verus! {

/// Where the identity record of `owner` lives.
pub open spec fn user_key(program: Seq<u8>, owner: Seq<u8>) -> Option<Seq<u8>> {
    derived_address(user_seeds(owner), program)
}

/// Where the ask of `owner` with the given ordinal lives.
pub open spec fn ask_key(program: Seq<u8>, owner: Seq<u8>, ordinal: u64) -> Option<Seq<u8>> {
    derived_address(ask_seeds(owner, ordinal), program)
}

/// The identity record at `k`, if one is there.
pub open spec fn user_in(m: Map<Seq<u8>, Account>, k: Seq<u8>) -> Option<User> {
    if m.contains_key(k) {
        match m[k].record {
            Record::User(u) => Some(u),
            _ => None,
        }
    } else {
        None
    }
}

/// Whether an ask is at `k`.
pub open spec fn has_ask(m: Map<Seq<u8>, Account>, k: Seq<u8>) -> bool {
    m.contains_key(k) && m[k].record is Ask
}

/// The ask at `k`; meaningful where `has_ask(m, k)`.
pub open spec fn ask_in(m: Map<Seq<u8>, Account>, k: Seq<u8>) -> Ask {
    m[k].record->Ask_0
}

/// Whether `content` fits the largest record as the text of an ask.
pub open spec fn ask_text_fits(content: Seq<char>) -> bool {
    text_len(content) + ASK_HEADER_SIZE + TEXT_PREFIX_SIZE <= MAX_ACCOUNT_SIZE
}

/// Why placing an ask would fail, if it would.
pub open spec fn place_ask_error(m: Map<Seq<u8>, Account>, program: Seq<u8>, owner: Seq<u8>, content: Seq<char>) -> Option<ErrorCode> {
    match user_key(program, owner) {
        None => Some(ErrorCode::InvalidSeeds),
        Some(uk) => match user_in(m, uk) {
            None => Some(ErrorCode::RecordNotFound),
            Some(u) => if u.running_ask_ordinal == u64::MAX {
                Some(ErrorCode::ArithmeticOverflow)
            } else {
                match ask_key(program, owner, u.running_ask_ordinal) {
                    None => Some(ErrorCode::InvalidSeeds),
                    Some(ak) => if !ask_text_fits(content) {
                        Some(ErrorCode::SizeMismatch)
                    } else if m.contains_key(ak) {
                        Some(ErrorCode::AddressAlreadyInUse)
                    } else if lamports_at(m, owner) < rent_of(Ask::spec_size(text_len(content))) {
                        Some(ErrorCode::InsufficientFunds)
                    } else {
                        None
                    },
                }
            },
        },
    }
}

/// Why addressing the ask of `owner` with `ordinal` would fail, if it would.
pub open spec fn ask_lookup_error(m: Map<Seq<u8>, Account>, program: Seq<u8>, owner: Seq<u8>, ordinal: u64) -> Option<ErrorCode> {
    match user_key(program, owner) {
        None => Some(ErrorCode::InvalidSeeds),
        Some(uk) => if user_in(m, uk) is None {
            Some(ErrorCode::RecordNotFound)
        } else {
            match ask_key(program, owner, ordinal) {
                None => Some(ErrorCode::InvalidSeeds),
                Some(ak) => if !has_ask(m, ak) {
                    Some(ErrorCode::RecordNotFound)
                } else {
                    None
                },
            }
        },
    }
}

/// `post` is `pre` after `owner` placed an ask with `content`, now at `a`:
/// the ask takes the owner's running ordinal, which advances by one.
pub open spec fn placed(pre: Ledger, post: Ledger, owner: Address, content: String, a: Address) -> bool {
    let uk = user_key(pre.program@, owner@)->Some_0;
    let u = user_in(pre@, uk)->Some_0;
    let space = Ask::spec_size(text_len(content@));
    let with_ask = created(
        pre@,
        owner@,
        Account {
            address: a,
            lamports: rent_of(space) as u64,
            space: space as usize,
            record: Record::Ask(Ask { ordinal: u.running_ask_ordinal, content, stake: 0 }),
        },
    );
    &&& post.same_config(&pre)
    &&& place_ask_error(pre@, pre.program@, owner@, content@) is None
    &&& ask_key(pre.program@, owner@, u.running_ask_ordinal) == Some(a@)
    &&& post@ == with_ask.insert(
        uk,
        Account {
            record: Record::User(User { running_ask_ordinal: (u.running_ask_ordinal + 1) as u64, ..u }),
            ..with_ask[uk]
        },
    )
}

/// What updating the ask of `owner` with `ordinal` to `content` returns.
pub open spec fn update_ask_outcome(pre: Ledger, owner: Address, ordinal: u64, content: Seq<char>) -> Result<(), ErrorCode> {
    let ak = ask_key(pre.program@, owner@, ordinal)->Some_0;
    let space = Ask::spec_size(text_len(content)) as usize;
    match ask_lookup_error(pre@, pre.program@, owner@, ordinal) {
        Some(e) => Err(e),
        None => if !ask_text_fits(content) {
            Err(ErrorCode::SizeMismatch)
        } else {
            match resize_error(pre@, ak, owner, space) {
                Some(e) => Err(e),
                None => Ok(()),
            }
        },
    }
}

/// `post` is `pre` after the ask of `owner` with `ordinal` took `content`:
/// its storage is resized to what the new content needs, the rent
/// difference settled with the owner, and its ordinal and stake are kept.
pub open spec fn updated(pre: Ledger, post: Ledger, owner: Address, ordinal: u64, content: String) -> bool {
    let ak = ask_key(pre.program@, owner@, ordinal)->Some_0;
    let space = Ask::spec_size(text_len(content@)) as usize;
    let grown = resized(pre@, ak, owner, space);
    &&& post.same_config(&pre)
    &&& post@ == grown.insert(
        ak,
        Account { record: Record::Ask(Ask { content, ..ask_in(pre@, ak) }), ..grown[ak] },
    )
}

/// What cancelling the ask of `owner` with `ordinal` returns: the lamports
/// of the ask, refunded to the owner.
pub open spec fn cancel_ask_outcome(pre: Ledger, owner: Address, ordinal: u64) -> Result<u64, ErrorCode> {
    let ak = ask_key(pre.program@, owner@, ordinal)->Some_0;
    let refund = pre@[ak].lamports;
    match ask_lookup_error(pre@, pre.program@, owner@, ordinal) {
        Some(e) => Err(e),
        None => if owner@ != ak && lamports_at(pre@, owner@) + refund > u64::MAX {
            Err(ErrorCode::ArithmeticOverflow)
        } else {
            Ok(refund)
        },
    }
}

/// `post` is `pre` after the ask of `owner` with `ordinal` was closed and
/// its lamports refunded to the owner.
pub open spec fn cancelled(pre: Ledger, post: Ledger, owner: Address, ordinal: u64) -> bool {
    let ak = ask_key(pre.program@, owner@, ordinal)->Some_0;
    &&& post.same_config(&pre)
    &&& post@ == credited(pre@.remove(ak), owner, pre@[ak].lamports)
}

/// What creating the identity record of `owner` does: on success the
/// record sits at the owner's derived address with a running ordinal of
/// zero, its rent paid by the owner; on failure nothing changes.
pub open spec fn user_initialized(pre: Ledger, post: Ledger, owner: Address, r: Result<Address, ErrorCode>) -> bool {
    match r {
        Ok(a) => user_key(pre.program@, owner@) == Some(a@)
            && !pre@.contains_key(a@)
            && lamports_at(pre@, owner@) >= rent_of(USER_SIZE as nat)
            && post@ == created(
                pre@,
                owner@,
                Account {
                    address: a,
                    lamports: rent_of(USER_SIZE as nat) as u64,
                    space: USER_SIZE,
                    record: Record::User(User { running_ask_ordinal: 0, total_staked: 0 }),
                },
            ),
        Err(e) => post == pre && match user_key(pre.program@, owner@) {
            None => e == ErrorCode::InvalidSeeds,
            Some(uk) => if pre@.contains_key(uk) {
                e == ErrorCode::AddressAlreadyInUse
            } else {
                e == ErrorCode::InsufficientFunds
                    && lamports_at(pre@, owner@) < rent_of(USER_SIZE as nat)
            },
        },
    }
}

impl Ledger {
    /// The identity record of `owner` and where it is.
    fn load_user(&self, owner: &Address) -> (r: Result<(Address, usize, User), ErrorCode>)
        requires
            self.wf(),
        ensures
            match r {
                Ok((a, i, u)) => user_key(self.program@, owner@) == Some(a@)
                    && user_in(self@, a@) == Some(u)
                    && i < self.accounts@.len() && self.accounts@[i as int].address@ == a@,
                Err(e) => match user_key(self.program@, owner@) {
                    None => e == ErrorCode::InvalidSeeds,
                    Some(uk) => e == ErrorCode::RecordNotFound && user_in(self@, uk) is None,
                },
            },
    {
        let ua = match user_address(&self.program, owner) {
            Some(a) => a,
            None => return Err(ErrorCode::InvalidSeeds),
        };
        let i = match self.find(&ua) {
            Some(i) => i,
            None => return Err(ErrorCode::RecordNotFound),
        };
        match &self.accounts[i].record {
            Record::User(u) => Ok((ua, i, *u)),
            _ => Err(ErrorCode::RecordNotFound),
        }
    }

    /// The ask of `owner` with `ordinal` and where it is.
    fn load_ask(&self, owner: &Address, ordinal: u64) -> (r: Result<(Address, usize), ErrorCode>)
        requires
            self.wf(),
        ensures
            match r {
                Ok((a, i)) => ask_lookup_error(self@, self.program@, owner@, ordinal) is None
                    && ask_key(self.program@, owner@, ordinal) == Some(a@)
                    && i < self.accounts@.len() && self.accounts@[i as int].address@ == a@,
                Err(e) => ask_lookup_error(self@, self.program@, owner@, ordinal) == Some(e),
            },
    {
        match self.load_user(owner) {
            Ok(_) => {},
            Err(e) => return Err(e),
        }
        let aa = match ask_address(&self.program, owner, ordinal) {
            Some(a) => a,
            None => return Err(ErrorCode::InvalidSeeds),
        };
        let i = match self.find(&aa) {
            Some(i) => i,
            None => return Err(ErrorCode::RecordNotFound),
        };
        match &self.accounts[i].record {
            Record::Ask(_) => Ok((aa, i)),
            _ => Err(ErrorCode::RecordNotFound),
        }
    }

    /// Creates the identity record of `owner`, with its running ordinal at
    /// zero, paid for by `owner`. Returns where it is.
    pub fn initialize_user(&mut self, owner: &Address) -> (r: Result<Address, ErrorCode>)
        requires
            old(self).wf(),
        ensures
            final(self).wf(),
            final(self).same_config(old(self)),
            user_initialized(*old(self), *final(self), *owner, r),
    {
        let ua = match user_address(&self.program, owner) {
            Some(a) => a,
            None => return Err(ErrorCode::InvalidSeeds),
        };
        let record = Record::User(User { running_ask_ordinal: 0, total_staked: 0 });
        match self.create_account(owner, &ua, USER_SIZE, record) {
            Ok(()) => Ok(ua),
            Err(e) => Err(e),
        }
    }

    /// Signs up `owner` as a user: creates its identity record, as
    /// `initialize_user` does.
    pub fn sign_up_user(&mut self, owner: &Address) -> (r: Result<Address, ErrorCode>)
        requires
            old(self).wf(),
        ensures
            final(self).wf(),
            final(self).same_config(old(self)),
            user_initialized(*old(self), *final(self), *owner, r),
    {
        self.initialize_user(owner)
    }

    /// Places an ask with `content` for `owner` at the owner's next ordinal,
    /// paid for by `owner`, and advances that ordinal. Returns where the ask is.
    pub fn place_ask(&mut self, owner: &Address, content: String) -> (r: Result<Address, ErrorCode>)
        requires
            old(self).wf(),
        ensures
            final(self).wf(),
            final(self).same_config(old(self)),
            match r {
                Ok(a) => placed(*old(self), *final(self), *owner, content, a),
                Err(e) => place_ask_error(old(self)@, old(self).program@, owner@, content@) == Some(e)
                    && *final(self) == *old(self),
            },
    {
        let (ua, _i, user) = match self.load_user(owner) {
            Ok(found) => found,
            Err(e) => return Err(e),
        };
        let ordinal = user.running_ask_ordinal;
        if ordinal == u64::MAX {
            return Err(ErrorCode::ArithmeticOverflow);
        }
        let aa = match ask_address(&self.program, owner, ordinal) {
            Some(a) => a,
            None => return Err(ErrorCode::InvalidSeeds),
        };
        let len = text_len_of(&content);
        if len > MAX_ACCOUNT_SIZE - ASK_HEADER_SIZE - TEXT_PREFIX_SIZE {
            return Err(ErrorCode::SizeMismatch);
        }
        let space = Ask::size(len);
        let ask = Ask { ordinal, content, stake: 0 };
        match self.create_account(owner, &aa, space, Record::Ask(ask)) {
            Ok(()) => {},
            Err(e) => return Err(e),
        }
        let j = match self.find(&ua) {
            Some(j) => j,
            None => {
                proof {
                    assert(false);
                }
                return Err(ErrorCode::RecordNotFound);
            },
        };
        self.set_record_at(j, Record::User(User { running_ask_ordinal: ordinal + 1, ..user }));
        Ok(aa)
    }
}

impl Ledger {
    /// Replaces the content of the ask of `owner` with `ordinal`, resizing
    /// its storage to exactly what the new content needs; the rent
    /// difference is settled with `owner`.
    pub fn update_ask(&mut self, owner: &Address, ordinal: u64, content: String) -> (r: Result<(), ErrorCode>)
        requires
            old(self).wf(),
        ensures
            final(self).wf(),
            final(self).same_config(old(self)),
            r == update_ask_outcome(*old(self), *owner, ordinal, content@),
            r is Ok ==> updated(*old(self), *final(self), *owner, ordinal, content),
            r is Err ==> *final(self) == *old(self),
    {
        let (aa, _i) = match self.load_ask(owner, ordinal) {
            Ok(found) => found,
            Err(e) => return Err(e),
        };
        let len = text_len_of(&content);
        if len > MAX_ACCOUNT_SIZE - ASK_HEADER_SIZE - TEXT_PREFIX_SIZE {
            return Err(ErrorCode::SizeMismatch);
        }
        let space = Ask::size(len);
        match self.settle_resize(&aa, owner, space) {
            Ok(()) => {},
            Err(e) => return Err(e),
        }
        let j = match self.find(&aa) {
            Some(j) => j,
            None => {
                proof {
                    assert(false);
                }
                return Err(ErrorCode::RecordNotFound);
            },
        };
        let (kept_ordinal, stake) = match &self.accounts[j].record {
            Record::Ask(a) => (a.ordinal, a.stake),
            _ => {
                proof {
                    assert(false);
                }
                return Err(ErrorCode::RecordNotFound);
            },
        };
        self.set_record_at(j, Record::Ask(Ask { ordinal: kept_ordinal, content, stake }));
        Ok(())
    }

    /// Closes the ask of `owner` with `ordinal`; its lamports go back to
    /// `owner`. Returns the lamports refunded.
    pub fn cancel_ask(&mut self, owner: &Address, ordinal: u64) -> (r: Result<u64, ErrorCode>)
        requires
            old(self).wf(),
        ensures
            final(self).wf(),
            final(self).same_config(old(self)),
            r == cancel_ask_outcome(*old(self), *owner, ordinal),
            r is Ok ==> cancelled(*old(self), *final(self), *owner, ordinal),
            r is Err ==> *final(self) == *old(self),
    {
        let (aa, _i) = match self.load_ask(owner, ordinal) {
            Ok(found) => found,
            Err(e) => return Err(e),
        };
        self.close_account(&aa, owner)
    }

    /// Adds `added_stake` to the stake of the ask of `owner` with `ordinal`
    /// and to the owner's total stake.
    pub fn prioritize_ask(&mut self, owner: &Address, ordinal: u64, added_stake: u64) -> (r: Result<(), ErrorCode>)
        requires
            old(self).wf(),
        ensures
            final(self).wf(),
            final(self).same_config(old(self)),
            ({
                let uk = user_key(old(self).program@, owner@)->Some_0;
                let u = user_in(old(self)@, uk)->Some_0;
                let ak = ask_key(old(self).program@, owner@, ordinal)->Some_0;
                let a = ask_in(old(self)@, ak);
                let expected = match ask_lookup_error(old(self)@, old(self).program@, owner@, ordinal) {
                    Some(e) => Err(e),
                    None => if u.total_staked + added_stake > u64::MAX || a.stake + added_stake > u64::MAX {
                        Err(ErrorCode::ArithmeticOverflow)
                    } else {
                        Ok::<(), ErrorCode>(())
                    },
                };
                &&& r == expected
                &&& r is Ok ==> final(self)@ == old(self)@.insert(
                    ak,
                    Account {
                        record: Record::Ask(Ask { stake: (a.stake + added_stake) as u64, ..a }),
                        ..old(self)@[ak]
                    },
                ).insert(
                    uk,
                    Account {
                        record: Record::User(User { total_staked: (u.total_staked + added_stake) as u64, ..u }),
                        ..old(self)@[uk]
                    },
                )
            }),
            r is Err ==> *final(self) == *old(self),
    {
        let (ua, ui, user) = match self.load_user(owner) {
            Ok(found) => found,
            Err(e) => return Err(e),
        };
        let (aa, ai) = match self.load_ask(owner, ordinal) {
            Ok(found) => found,
            Err(e) => return Err(e),
        };
        if user.total_staked > u64::MAX - added_stake {
            return Err(ErrorCode::ArithmeticOverflow);
        }
        let (kept_ordinal, stake) = match &self.accounts[ai].record {
            Record::Ask(a) => (a.ordinal, a.stake),
            _ => {
                proof {
                    assert(false);
                }
                return Err(ErrorCode::RecordNotFound);
            },
        };
        if stake > u64::MAX - added_stake {
            return Err(ErrorCode::ArithmeticOverflow);
        }
        let content = match &self.accounts[ai].record {
            Record::Ask(a) => a.content.clone(),
            _ => {
                proof {
                    assert(false);
                }
                return Err(ErrorCode::RecordNotFound);
            },
        };
        self.set_record_at(ai, Record::Ask(Ask { ordinal: kept_ordinal, content, stake: stake + added_stake }));
        let j = match self.find(&ua) {
            Some(j) => j,
            None => {
                proof {
                    assert(false);
                }
                return Err(ErrorCode::RecordNotFound);
            },
        };
        self.set_record_at(j, Record::User(User { total_staked: user.total_staked + added_stake, ..user }));
        Ok(())
    }
}

} // verus!
