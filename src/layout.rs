//! The persisted layout of records: a type tag of eight bytes, then the
//! fields in declaration order, integers little-endian, a text as a
//! four-byte length and its UTF-8 bytes.

use vstd::prelude::*;
use vstd::string::StringSliceAdditionalSpecFns;
use anchor_lang::solana_program::hash::hash;
use crate::address::{label_seed, label_seed_of, le_bytes, le_bytes_of};
use crate::state::{Ask, User, text_len, text_len_of, MAX_ACCOUNT_SIZE, USER_SIZE};

verus! {

/// The SHA-256 digest of `data`.
pub uninterp spec fn sha256_of(data: Seq<u8>) -> Seq<u8>;

/// Relies on `solana_program::hash::hash`: the SHA-256 digest of its input,
/// 32 bytes.
#[verifier::external_body]
fn sha256(data: &Vec<u8>) -> (r: Vec<u8>)
    ensures
        r@ == sha256_of(data@),
        r@.len() == 32,
{
    hash(data.as_slice()).to_bytes().to_vec()
}

/// The type tag of the record type `name`: the first eight bytes of the
/// SHA-256 digest of `account:` followed by the name.
pub open spec fn type_tag(name: Seq<u8>) -> Seq<u8> {
    sha256_of(label_seed("account:") + name).take(8)
}

pub fn type_tag_of(name: &str) -> (r: Vec<u8>)
    ensures
        r@ == type_tag(label_seed(name)),
        r@.len() == 8,
{
    let mut preimage = label_seed_of("account:");
    let mut rest = label_seed_of(name);
    preimage.append(&mut rest);
    let digest = sha256(&preimage);
    let mut tag: Vec<u8> = Vec::new();
    let mut i: usize = 0;
    while i < 8
        invariant
            0 <= i <= 8,
            digest@.len() == 32,
            tag@ =~= digest@.take(i as int),
        decreases 8 - i,
    {
        tag.push(digest[i]);
        i = i + 1;
        assert(tag@ =~= digest@.take(i as int));
    }
    tag
}

/// The little-endian bytes of a 32-bit integer.
pub open spec fn le_u32_bytes(n: u32) -> Seq<u8> {
    seq![(n & 0xff) as u8, ((n >> 8u32) & 0xff) as u8, ((n >> 16u32) & 0xff) as u8, ((n >> 24u32) & 0xff) as u8]
}

pub fn le_u32_bytes_of(n: u32) -> (r: Vec<u8>)
    ensures
        r@ == le_u32_bytes(n),
{
    let v: Vec<u8> = vec![(n & 0xff) as u8, ((n >> 8u32) & 0xff) as u8, ((n >> 16u32) & 0xff) as u8, ((n >> 24u32) & 0xff) as u8];
    assert(v@ =~= le_u32_bytes(n));
    v
}

/// The persisted bytes of an identity record.
pub open spec fn user_layout(u: User) -> Seq<u8> {
    type_tag(label_seed("User")) + le_bytes(u.running_ask_ordinal) + le_bytes(u.total_staked)
}

/// The persisted bytes of an ask.
pub open spec fn ask_layout(a: Ask) -> Seq<u8> {
    type_tag(label_seed("Ask")) + le_bytes(a.ordinal) + le_u32_bytes(text_len(a.content@) as u32)
        + vstd::utf8::encode_utf8(a.content@) + le_bytes(a.stake)
}

/// Writes an identity record in its persisted layout, which takes exactly
/// its storage size.
pub fn encode_user(u: &User) -> (r: Vec<u8>)
    ensures
        r@ == user_layout(*u),
        r@.len() == USER_SIZE,
{
    let mut out = type_tag_of("User");
    let mut running = le_bytes_of(u.running_ask_ordinal);
    let mut staked = le_bytes_of(u.total_staked);
    out.append(&mut running);
    out.append(&mut staked);
    out
}

/// Writes an ask in its persisted layout, which takes exactly its storage
/// size.
pub fn encode_ask(a: &Ask) -> (r: Vec<u8>)
    requires
        text_len(a.content@) <= MAX_ACCOUNT_SIZE,
    ensures
        r@ == ask_layout(*a),
        r@.len() == Ask::spec_size(text_len(a.content@)),
{
    let len = text_len_of(&a.content);
    let mut out = type_tag_of("Ask");
    let mut ordinal = le_bytes_of(a.ordinal);
    let mut prefix = le_u32_bytes_of(len as u32);
    let mut text = vstd::slice::slice_to_vec(a.content.as_str().as_bytes());
    let mut stake = le_bytes_of(a.stake);
    out.append(&mut ordinal);
    out.append(&mut prefix);
    out.append(&mut text);
    out.append(&mut stake);
    out
}

} // verus!
