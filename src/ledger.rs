//! The store: records kept at unique addresses, with the lamports that back
//! each of them.

use vstd::prelude::*;
use crate::address::Address;
use crate::error::ErrorCode;
use crate::state::{Account, Record};

verus! {

pub struct Ledger {
    /// The program whose records this store holds; every derived address is
    /// derived under it.
    pub program: Address,
    /// The one address that deposits may be sent to.
    pub treasury: Address,
    /// The token program, under whose id token holdings are seeded.
    pub token_program: Address,
    /// The associated-token program, under which token holdings are derived.
    pub associated_token_program: Address,
    pub accounts: Vec<Account>,
}

/// Relies on `anchor_spl::token::ID`: the address of the token program.
#[verifier::external_body]
fn token_program_id() -> (r: Address) {
    Address { bytes: anchor_spl::token::ID.to_bytes() }
}

/// Relies on `anchor_spl::associated_token::ID`: the address of the
/// associated-token program.
#[verifier::external_body]
fn associated_token_program_id() -> (r: Address) {
    Address { bytes: anchor_spl::associated_token::ID.to_bytes() }
}

impl View for Ledger {
    type V = Map<Seq<u8>, Account>;

    /// The records by address.
    open spec fn view(&self) -> Map<Seq<u8>, Account> {
        Map::new(
            |k: Seq<u8>| exists|i: int| 0 <= i < self.accounts@.len() && self.accounts@[i].address@ == k,
            |k: Seq<u8>|
                self.accounts@[choose|i: int|
                    0 <= i < self.accounts@.len() && self.accounts@[i].address@ == k],
        )
    }
}

/// An account with another balance.
pub open spec fn with_lamports(a: Account, lamports: u64) -> Account {
    Account { lamports, ..a }
}

/// The lamports held at an address, zero where there is no account.
pub open spec fn lamports_at(m: Map<Seq<u8>, Account>, k: Seq<u8>) -> nat {
    if m.contains_key(k) {
        m[k].lamports as nat
    } else {
        0
    }
}

/// The map after `k` receives `amount` lamports: its balance grows, or a
/// wallet is opened there.
pub open spec fn credited(m: Map<Seq<u8>, Account>, k: Address, amount: u64) -> Map<Seq<u8>, Account> {
    if m.contains_key(k@) {
        m.insert(k@, with_lamports(m[k@], (m[k@].lamports + amount) as u64))
    } else {
        m.insert(k@, Account { address: k, lamports: amount, space: 0, record: Record::Wallet })
    }
}

/// The map after `k`, which holds at least `amount`, pays it out.
pub open spec fn debited(m: Map<Seq<u8>, Account>, k: Seq<u8>, amount: u64) -> Map<Seq<u8>, Account> {
    if m.contains_key(k) {
        m.insert(k, with_lamports(m[k], (m[k].lamports - amount) as u64))
    } else {
        m
    }
}

impl Ledger {
    /// Addresses are unique.
    pub open spec fn wf(&self) -> bool {
        forall|i: int, j: int|
            0 <= i < j < self.accounts@.len() ==> self.accounts@[i].address@
                != self.accounts@[j].address@
    }

    pub open spec fn same_config(&self, other: &Ledger) -> bool {
        &&& self.program == other.program
        &&& self.treasury == other.treasury
        &&& self.token_program == other.token_program
        &&& self.associated_token_program == other.associated_token_program
    }

    pub proof fn lemma_view_at(&self, i: int)
        requires
            self.wf(),
            0 <= i < self.accounts@.len(),
        ensures
            self@.contains_key(self.accounts@[i].address@),
            self@[self.accounts@[i].address@] == self.accounts@[i],
    {
        let k = self.accounts@[i].address@;
        assert(self@.contains_key(k));
        let j = choose|j: int| 0 <= j < self.accounts@.len() && self.accounts@[j].address@ == k;
        assert(i == j);
    }

    /// An empty store for the given program and treasury.
    pub fn new(program: Address, treasury: Address) -> (r: Ledger)
        ensures
            r.wf(),
            r.program == program,
            r.treasury == treasury,
            r@ == Map::<Seq<u8>, Account>::empty(),
    {
        let r = Ledger {
            program,
            treasury,
            token_program: token_program_id(),
            associated_token_program: associated_token_program_id(),
            accounts: Vec::new(),
        };
        assert(r@ =~= Map::<Seq<u8>, Account>::empty());
        r
    }

    /// The position of the account at `a`.
    pub fn find(&self, a: &Address) -> (r: Option<usize>)
        requires
            self.wf(),
        ensures
            match r {
                Some(i) => i < self.accounts@.len() && self.accounts@[i as int].address@ == a@
                    && self@.contains_key(a@) && self@[a@] == self.accounts@[i as int],
                None => !self@.contains_key(a@),
            },
    {
        let mut i: usize = 0;
        while i < self.accounts.len()
            invariant
                self.wf(),
                0 <= i <= self.accounts@.len(),
                forall|j: int| 0 <= j < i ==> self.accounts@[j].address@ != a@,
            decreases self.accounts@.len() - i,
        {
            if self.accounts[i].address.same(a) {
                proof {
                    self.lemma_view_at(i as int);
                }
                return Some(i);
            }
            i = i + 1;
        }
        None
    }

    /// Whether a record is at `a`.
    pub fn contains(&self, a: &Address) -> (r: bool)
        requires
            self.wf(),
        ensures
            r == self@.contains_key(a@),
    {
        self.find(a).is_some()
    }

    /// The lamports at `a`.
    pub fn balance(&self, a: &Address) -> (r: u64)
        requires
            self.wf(),
        ensures
            r == lamports_at(self@, a@),
    {
        match self.find(a) {
            Some(i) => self.accounts[i].lamports,
            None => 0,
        }
    }

    /// The record at `a`.
    pub fn get(&self, a: &Address) -> (r: Option<&Account>)
        requires
            self.wf(),
        ensures
            match r {
                Some(acct) => self@.contains_key(a@) && self@[a@] == *acct,
                None => !self@.contains_key(a@),
            },
    {
        match self.find(a) {
            Some(i) => Some(&self.accounts[i]),
            None => None,
        }
    }

    /// Adds an account at an address that holds none.
    pub(crate) fn insert_new(&mut self, acct: Account)
        requires
            old(self).wf(),
            !old(self)@.contains_key(acct.address@),
        ensures
            final(self).wf(),
            final(self).same_config(old(self)),
            final(self)@ == old(self)@.insert(acct.address@, acct),
    {
        let ghost pre = *self;
        let ghost k = acct.address@;
        self.accounts.push(acct);
        proof {
            let post = *self;
            let n = pre.accounts@.len() as int;
            assert(post.accounts@ == pre.accounts@.push(acct));
            assert forall|a: int, b: int| 0 <= a < b < post.accounts@.len()
                implies post.accounts@[a].address@ != post.accounts@[b].address@ by {
                if b == n {
                    if pre.accounts@[a].address@ == k {
                        assert(pre@.contains_key(k));
                    }
                } else {
                    assert(pre.accounts@[a].address@ != pre.accounts@[b].address@);
                }
            }
            assert forall|key: Seq<u8>| #[trigger] post@.contains_key(key) <==> pre@.insert(k, acct).contains_key(key) by {
                if post@.contains_key(key) {
                    let j = choose|j: int| 0 <= j < post.accounts@.len() && post.accounts@[j].address@ == key;
                    if j != n {
                        assert(pre.accounts@[j].address@ == key);
                    }
                }
                if pre@.contains_key(key) {
                    let j = choose|j: int| 0 <= j < pre.accounts@.len() && pre.accounts@[j].address@ == key;
                    assert(post.accounts@[j].address@ == key);
                }
                if key == k {
                    assert(post.accounts@[n].address@ == key);
                }
            }
            assert forall|key: Seq<u8>| #[trigger] post@.contains_key(key) implies post@[key] == pre@.insert(k, acct)[key] by {
                let j = choose|j: int| 0 <= j < post.accounts@.len() && post.accounts@[j].address@ == key;
                post.lemma_view_at(j);
                if j != n {
                    pre.lemma_view_at(j);
                } else {
                    assert(key == k);
                }
            }
            assert(post@ =~= pre@.insert(k, acct));
        }
    }

    /// Takes out the account at position `i`.
    pub(crate) fn remove_at(&mut self, i: usize) -> (r: Account)
        requires
            old(self).wf(),
            i < old(self).accounts@.len(),
        ensures
            final(self).wf(),
            final(self).same_config(old(self)),
            r == old(self).accounts@[i as int],
            final(self)@ == old(self)@.remove(r.address@),
    {
        let ghost pre = *self;
        let r = self.accounts.remove(i);
        proof {
            let post = *self;
            let k = r.address@;
            let ii = i as int;
            assert(post.accounts@ == pre.accounts@.remove(ii));
            assert forall|a: int, b: int| 0 <= a < b < post.accounts@.len()
                implies post.accounts@[a].address@ != post.accounts@[b].address@ by {
                let pa = if a < ii { a } else { a + 1 };
                let pb = if b < ii { b } else { b + 1 };
                assert(pre.accounts@[pa].address@ != pre.accounts@[pb].address@);
            }
            assert forall|key: Seq<u8>| #[trigger] post@.contains_key(key) <==> pre@.remove(k).contains_key(key) by {
                if post@.contains_key(key) {
                    let j = choose|j: int| 0 <= j < post.accounts@.len() && post.accounts@[j].address@ == key;
                    let pj = if j < ii { j } else { j + 1 };
                    assert(pre.accounts@[pj].address@ == key);
                    assert(pre.accounts@[ii].address@ != pre.accounts@[pj].address@);
                }
                if pre@.contains_key(key) && key != k {
                    let j = choose|j: int| 0 <= j < pre.accounts@.len() && pre.accounts@[j].address@ == key;
                    assert(j != ii);
                    let qj = if j < ii { j } else { j - 1 };
                    assert(post.accounts@[qj].address@ == key);
                }
            }
            assert forall|key: Seq<u8>| #[trigger] post@.contains_key(key) implies post@[key] == pre@.remove(k)[key] by {
                let j = choose|j: int| 0 <= j < post.accounts@.len() && post.accounts@[j].address@ == key;
                let pj = if j < ii { j } else { j + 1 };
                post.lemma_view_at(j);
                pre.lemma_view_at(pj);
            }
            assert(post@ =~= pre@.remove(k));
        }
        r
    }

    /// Sets the balance of the account at position `i`.
    pub(crate) fn set_lamports_at(&mut self, i: usize, lamports: u64)
        requires
            old(self).wf(),
            i < old(self).accounts@.len(),
        ensures
            final(self).wf(),
            final(self).same_config(old(self)),
            final(self)@ == old(self)@.insert(
                old(self).accounts@[i as int].address@,
                with_lamports(old(self).accounts@[i as int], lamports),
            ),
    {
        let ghost pre = *self;
        self.accounts[i].lamports = lamports;
        proof {
            assert(self.accounts@ =~= pre.accounts@.update(
                i as int,
                with_lamports(pre.accounts@[i as int], lamports),
            ));
            lemma_update_at(pre, *self, i as int);
        }
    }
}

impl Ledger {
    /// Sets the storage size and balance of the account at position `i`.
    pub(crate) fn set_space_lamports_at(&mut self, i: usize, space: usize, lamports: u64)
        requires
            old(self).wf(),
            i < old(self).accounts@.len(),
        ensures
            final(self).wf(),
            final(self).same_config(old(self)),
            final(self)@ == old(self)@.insert(
                old(self).accounts@[i as int].address@,
                Account { space, lamports, ..old(self).accounts@[i as int] },
            ),
    {
        let ghost pre = *self;
        self.accounts[i].space = space;
        self.accounts[i].lamports = lamports;
        proof {
            assert(self.accounts@ =~= pre.accounts@.update(
                i as int,
                Account { space, lamports, ..pre.accounts@[i as int] },
            ));
            lemma_update_at(pre, *self, i as int);
        }
    }

    /// Sets the record held by the account at position `i`.
    pub(crate) fn set_record_at(&mut self, i: usize, record: Record)
        requires
            old(self).wf(),
            i < old(self).accounts@.len(),
        ensures
            final(self).wf(),
            final(self).same_config(old(self)),
            final(self)@ == old(self)@.insert(
                old(self).accounts@[i as int].address@,
                Account { record, ..old(self).accounts@[i as int] },
            ),
            final(self).accounts@.len() == old(self).accounts@.len(),
            forall|j: int| 0 <= j < old(self).accounts@.len() ==> final(self).accounts@[j].address
                == old(self).accounts@[j].address,
    {
        let ghost pre = *self;
        self.accounts[i].record = record;
        proof {
            assert(self.accounts@ =~= pre.accounts@.update(
                i as int,
                Account { record, ..pre.accounts@[i as int] },
            ));
            lemma_update_at(pre, *self, i as int);
        }
    }
}

/// Replacing the account at one position by one at the same address
/// updates the view at that address alone.
proof fn lemma_update_at(pre: Ledger, post: Ledger, i: int)
    requires
        pre.wf(),
        0 <= i < pre.accounts@.len(),
        post.accounts@ == pre.accounts@.update(i, post.accounts@[i]),
        post.accounts@[i].address@ == pre.accounts@[i].address@,
    ensures
        post.wf(),
        post@ == pre@.insert(pre.accounts@[i].address@, post.accounts@[i]),
{
    let k = pre.accounts@[i].address@;
    let acct = post.accounts@[i];
    assert forall|a: int, b: int| 0 <= a < b < post.accounts@.len()
        implies post.accounts@[a].address@ != post.accounts@[b].address@ by {
        assert(pre.accounts@[a].address@ != pre.accounts@[b].address@);
    }
    assert forall|key: Seq<u8>| #[trigger] post@.contains_key(key) <==> pre@.insert(k, acct).contains_key(key) by {
        if post@.contains_key(key) {
            let j = choose|j: int| 0 <= j < post.accounts@.len() && post.accounts@[j].address@ == key;
            if j != i {
                assert(pre.accounts@[j].address@ == key);
            }
        }
        if pre@.contains_key(key) && key != k {
            let j = choose|j: int| 0 <= j < pre.accounts@.len() && pre.accounts@[j].address@ == key;
            assert(post.accounts@[j].address@ == key);
        }
        if key == k {
            assert(post.accounts@[i].address@ == key);
        }
    }
    assert forall|key: Seq<u8>| #[trigger] post@.contains_key(key) implies post@[key] == pre@.insert(k, acct)[key] by {
        let j = choose|j: int| 0 <= j < post.accounts@.len() && post.accounts@[j].address@ == key;
        post.lemma_view_at(j);
        if j != i {
            pre.lemma_view_at(j);
        } else {
            assert(key == k);
        }
    }
    assert(post@ =~= pre@.insert(k, acct));
}

} // verus!
