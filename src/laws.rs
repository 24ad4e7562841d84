//! Properties that relate several operations of the store.

use vstd::prelude::*;
use crate::address::{
    Address, address_view, ask_seeds, derived_address, le_bytes, lemma_le_bytes_injective,
    seed_bytes, user_seeds,
};
use crate::asks::{
    ask_in, ask_key, ask_lookup_error, cancel_ask_outcome, cancelled, has_ask, placed,
    update_ask_outcome, updated, user_in, user_key,
};
use crate::error::ErrorCode;
use crate::ledger::{Ledger, lamports_at};
use crate::state::{Record, TreasuryClaim, TreasuryClaimsOrdinal, text_len, ASK_HEADER_SIZE, TEXT_PREFIX_SIZE};
use crate::treasury::{ClaimReceipt, counter_in, counter_key, deposited};

verus! {

/// Placing an ask gives it the owner's running ordinal and advances that
/// ordinal by one.
pub proof fn lemma_place_ask_step(pre: Ledger, post: Ledger, owner: Address, content: String, a: Address)
    requires
        placed(pre, post, owner, content, a),
    ensures
        ({
            let uk = user_key(pre.program@, owner@)->Some_0;
            let n = user_in(pre@, uk)->Some_0.running_ask_ordinal;
            &&& user_key(pre.program@, owner@) is Some
            &&& user_in(pre@, uk) is Some
            &&& user_in(post@, uk) is Some
            &&& user_in(post@, uk)->Some_0.running_ask_ordinal == n + 1
            &&& ask_key(pre.program@, owner@, n) == Some(a@)
            &&& has_ask(post@, a@)
            &&& ask_in(post@, a@).ordinal == n
            &&& ask_in(post@, a@).content == content
        }),
{
    let uk = user_key(pre.program@, owner@)->Some_0;
    let u = user_in(pre@, uk)->Some_0;
    assert(pre@.contains_key(uk));
    assert(!pre@.contains_key(a@));
    assert(a@ != uk);
}

/// The asks one identity places, starting from a running ordinal of zero,
/// take the ordinals 0, 1, 2, ... in order, each at the address derived from
/// it, and after n asks the running ordinal is n.
pub proof fn lemma_ask_ordinals_consecutive(ledgers: Seq<Ledger>, owner: Address, contents: Seq<String>, asks: Seq<Address>)
    requires
        ledgers.len() == contents.len() + 1,
        asks.len() == contents.len(),
        user_key(ledgers[0].program@, owner@) is Some,
        user_in(ledgers[0]@, user_key(ledgers[0].program@, owner@)->Some_0) is Some,
        user_in(ledgers[0]@, user_key(ledgers[0].program@, owner@)->Some_0)->Some_0.running_ask_ordinal == 0,
        forall|i: int| 0 <= i < contents.len() ==> placed(ledgers[i], ledgers[i + 1], owner, contents[i], asks[i]),
    ensures
        forall|i: int| 0 <= i < contents.len() ==> {
            &&& ask_key(ledgers[0].program@, owner@, i as u64) == Some(asks[i]@)
            &&& has_ask(ledgers[i + 1]@, asks[i]@)
            &&& ask_in(ledgers[i + 1]@, asks[i]@).ordinal == i
        },
        user_in(ledgers.last()@, user_key(ledgers[0].program@, owner@)->Some_0)->Some_0.running_ask_ordinal
            == contents.len(),
{
    lemma_ask_ordinals_upto(ledgers, owner, contents, asks, contents.len() as int);
}

proof fn lemma_ask_ordinals_upto(ledgers: Seq<Ledger>, owner: Address, contents: Seq<String>, asks: Seq<Address>, k: int)
    requires
        0 <= k <= contents.len(),
        ledgers.len() == contents.len() + 1,
        asks.len() == contents.len(),
        user_key(ledgers[0].program@, owner@) is Some,
        user_in(ledgers[0]@, user_key(ledgers[0].program@, owner@)->Some_0) is Some,
        user_in(ledgers[0]@, user_key(ledgers[0].program@, owner@)->Some_0)->Some_0.running_ask_ordinal == 0,
        forall|i: int| 0 <= i < contents.len() ==> placed(ledgers[i], ledgers[i + 1], owner, contents[i], asks[i]),
    ensures
        ledgers[k].program == ledgers[0].program,
        user_in(ledgers[k]@, user_key(ledgers[0].program@, owner@)->Some_0) is Some,
        user_in(ledgers[k]@, user_key(ledgers[0].program@, owner@)->Some_0)->Some_0.running_ask_ordinal == k,
        forall|i: int| 0 <= i < k ==> {
            &&& ask_key(ledgers[0].program@, owner@, i as u64) == Some(asks[i]@)
            &&& has_ask(ledgers[i + 1]@, asks[i]@)
            &&& ask_in(ledgers[i + 1]@, asks[i]@).ordinal == i
        },
    decreases k,
{
    if k > 0 {
        lemma_ask_ordinals_upto(ledgers, owner, contents, asks, k - 1);
        lemma_place_ask_step(ledgers[k - 1], ledgers[k], owner, contents[k - 1], asks[k - 1]);
    }
}

/// Address derivation is a function of its inputs: two derivations from the
/// same seeds under the same program give the same address.
pub proof fn lemma_derive_deterministic(program: Address, seeds: Seq<Seq<u8>>, r1: Option<Address>, r2: Option<Address>)
    requires
        address_view(r1) == derived_address(seeds, program@),
        address_view(r2) == derived_address(seeds, program@),
    ensures
        address_view(r1) == address_view(r2),
{
}

/// Distinct (owner, ordinal) pairs hand the address search distinct bytes,
/// and no ask's seed bytes are those of an identity record.
pub proof fn lemma_ask_seeds_distinct(o1: Address, n1: u64, o2: Address, n2: u64)
    requires
        o1@ != o2@ || n1 != n2,
    ensures
        seed_bytes(ask_seeds(o1@, n1)) != seed_bytes(ask_seeds(o2@, n2)),
        seed_bytes(ask_seeds(o1@, n1)) != seed_bytes(user_seeds(o2@)),
{
    lemma_flatten_two(o1@, le_bytes(n1));
    lemma_flatten_two(o2@, le_bytes(n2));
    lemma_flatten_one(o2@);
    let b1 = seed_bytes(ask_seeds(o1@, n1));
    let b2 = seed_bytes(ask_seeds(o2@, n2));
    assert(ask_seeds(o1@, n1) == seq![o1@, le_bytes(n1)]);
    if b1 == b2 {
        assert(b1.subrange(0, 32) =~= o1@);
        assert(b2.subrange(0, 32) =~= o2@);
        assert(b1.subrange(32, 40) =~= le_bytes(n1));
        assert(b2.subrange(32, 40) =~= le_bytes(n2));
        lemma_le_bytes_injective(n1, n2);
    }
    assert(b1.len() == 40);
}

proof fn lemma_flatten_two(a: Seq<u8>, b: Seq<u8>)
    ensures
        seq![a, b].flatten() == a + b,
{
    let s = seq![a, b];
    assert(s.drop_first() =~= seq![b]);
    assert(seq![b].drop_first() =~= Seq::<Seq<u8>>::empty());
    assert(seq![b].flatten() == b + Seq::<Seq<u8>>::empty().flatten());
    assert(b + Seq::<u8>::empty() =~= b);
}

proof fn lemma_flatten_one(a: Seq<u8>)
    ensures
        seq![a].flatten() == a,
{
    assert(seq![a].drop_first() =~= Seq::<Seq<u8>>::empty());
    assert(Seq::<Seq<u8>>::empty().flatten() =~= Seq::<u8>::empty());
    assert(seq![a].flatten() == a + Seq::<Seq<u8>>::empty().flatten());
    assert(a + Seq::<u8>::empty() =~= a);
}

/// Once an ask is cancelled, every operation that addresses it fails with
/// `RecordNotFound`, and its owner has received exactly the lamports that
/// backed it. (The owner's own address is not the ask's.)
pub proof fn lemma_cancel_is_final(pre: Ledger, post: Ledger, owner: Address, ordinal: u64, content: Seq<char>)
    requires
        cancel_ask_outcome(pre, owner, ordinal) is Ok,
        cancelled(pre, post, owner, ordinal),
        owner@ != ask_key(pre.program@, owner@, ordinal)->Some_0,
    ensures
        ask_lookup_error(post@, post.program@, owner@, ordinal) == Some(ErrorCode::RecordNotFound),
        cancel_ask_outcome(post, owner, ordinal) == Err::<u64, ErrorCode>(ErrorCode::RecordNotFound),
        update_ask_outcome(post, owner, ordinal, content) == Err::<(), ErrorCode>(ErrorCode::RecordNotFound),
        lamports_at(post@, owner@) == lamports_at(pre@, owner@)
            + pre@[ask_key(pre.program@, owner@, ordinal)->Some_0].lamports,
{
    let ak = ask_key(pre.program@, owner@, ordinal)->Some_0;
    assert(!post@.contains_key(ak));
}

/// After an ask is updated, its storage is exactly the fixed header, the
/// length prefix and the new content's byte length, and it holds the new
/// content with its ordinal.
pub proof fn lemma_update_sizes_exactly(pre: Ledger, post: Ledger, owner: Address, ordinal: u64, content: String)
    requires
        update_ask_outcome(pre, owner, ordinal, content@) is Ok,
        updated(pre, post, owner, ordinal, content),
    ensures
        ({
            let ak = ask_key(pre.program@, owner@, ordinal)->Some_0;
            &&& has_ask(post@, ak)
            &&& post@[ak].space == ASK_HEADER_SIZE + TEXT_PREFIX_SIZE + text_len(content@)
            &&& ask_in(post@, ak).content == content
            &&& ask_in(post@, ak).ordinal == ask_in(pre@, ak).ordinal
        }),
{
}

/// A deposit sets the counter to the claim's ordinal, one more than before,
/// and records the claim under that ordinal.
pub proof fn lemma_deposit_step(
    pre: Ledger,
    post: Ledger,
    depositor: Address,
    destination: Seq<u8>,
    amount: u64,
    timestamp: i64,
    c: ClaimReceipt,
)
    requires
        deposited(pre, post, depositor, destination, amount, timestamp, c),
    ensures
        ({
            let ck = counter_key(pre.program@)->Some_0;
            &&& post.program == pre.program
            &&& counter_key(pre.program@) is Some
            &&& counter_in(pre@, ck) is Some
            &&& c.ordinal == counter_in(pre@, ck)->Some_0.claims_issued + 1
            &&& counter_in(post@, ck) == Some(TreasuryClaimsOrdinal { claims_issued: c.ordinal })
            &&& post@.contains_key(c.record@)
            &&& post@[c.record@].record matches Record::TreasuryClaim(t) && t.ordinal == c.ordinal
        }),
{
}

/// Successive deposits from a counter at zero issue the claims 1, 2, ..., n
/// in order, each recorded under its ordinal, and leave the counter at n.
pub proof fn lemma_claim_ordinals_consecutive(
    ledgers: Seq<Ledger>,
    depositors: Seq<Address>,
    destinations: Seq<Seq<u8>>,
    amounts: Seq<u64>,
    stamps: Seq<i64>,
    claims: Seq<ClaimReceipt>,
)
    requires
        ledgers.len() == claims.len() + 1,
        depositors.len() == claims.len(),
        destinations.len() == claims.len(),
        amounts.len() == claims.len(),
        stamps.len() == claims.len(),
        counter_key(ledgers[0].program@) is Some,
        counter_in(ledgers[0]@, counter_key(ledgers[0].program@)->Some_0)
            == Some(TreasuryClaimsOrdinal { claims_issued: 0 }),
        forall|i: int| 0 <= i < claims.len() ==> deposited(
            ledgers[i],
            ledgers[i + 1],
            depositors[i],
            destinations[i],
            amounts[i],
            stamps[i],
            claims[i],
        ),
    ensures
        forall|i: int| 0 <= i < claims.len() ==> {
            &&& claims[i].ordinal == i + 1
            &&& ledgers[i + 1]@.contains_key(claims[i].record@)
            &&& ledgers[i + 1]@[claims[i].record@].record matches Record::TreasuryClaim(t) && t.ordinal == i + 1
        },
        counter_in(ledgers.last()@, counter_key(ledgers[0].program@)->Some_0) is Some,
        counter_in(ledgers.last()@, counter_key(ledgers[0].program@)->Some_0)->Some_0.claims_issued
            == claims.len(),
{
    lemma_claim_ordinals_upto(ledgers, depositors, destinations, amounts, stamps, claims, claims.len() as int);
}

proof fn lemma_claim_ordinals_upto(
    ledgers: Seq<Ledger>,
    depositors: Seq<Address>,
    destinations: Seq<Seq<u8>>,
    amounts: Seq<u64>,
    stamps: Seq<i64>,
    claims: Seq<ClaimReceipt>,
    k: int,
)
    requires
        0 <= k <= claims.len(),
        ledgers.len() == claims.len() + 1,
        depositors.len() == claims.len(),
        destinations.len() == claims.len(),
        amounts.len() == claims.len(),
        stamps.len() == claims.len(),
        counter_key(ledgers[0].program@) is Some,
        counter_in(ledgers[0]@, counter_key(ledgers[0].program@)->Some_0)
            == Some(TreasuryClaimsOrdinal { claims_issued: 0 }),
        forall|i: int| 0 <= i < claims.len() ==> deposited(
            ledgers[i],
            ledgers[i + 1],
            depositors[i],
            destinations[i],
            amounts[i],
            stamps[i],
            claims[i],
        ),
    ensures
        ledgers[k].program == ledgers[0].program,
        counter_in(ledgers[k]@, counter_key(ledgers[0].program@)->Some_0) is Some,
        counter_in(ledgers[k]@, counter_key(ledgers[0].program@)->Some_0)->Some_0.claims_issued == k,
        forall|i: int| 0 <= i < k ==> {
            &&& claims[i].ordinal == i + 1
            &&& ledgers[i + 1]@.contains_key(claims[i].record@)
            &&& ledgers[i + 1]@[claims[i].record@].record matches Record::TreasuryClaim(t) && t.ordinal == i + 1
        },
    decreases k,
{
    if k > 0 {
        lemma_claim_ordinals_upto(ledgers, depositors, destinations, amounts, stamps, claims, k - 1);
        lemma_deposit_step(
            ledgers[k - 1],
            ledgers[k],
            depositors[k - 1],
            destinations[k - 1],
            amounts[k - 1],
            stamps[k - 1],
            claims[k - 1],
        );
    }
}

} // verus!
