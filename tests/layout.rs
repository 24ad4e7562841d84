use anchor_lang::solana_program::hash::hash;
use ask_network::layout::{encode_ask, encode_user, le_u32_bytes_of, type_tag_of};
use ask_network::state::{Ask, User};

fn tag(name: &str) -> Vec<u8> {
    hash(format!("account:{}", name).as_bytes()).to_bytes()[..8].to_vec()
}

#[test]
fn type_tags_are_digest_prefixes() {
    assert_eq!(type_tag_of("Ask"), tag("Ask"));
    assert_eq!(type_tag_of("User"), tag("User"));
    assert_ne!(type_tag_of("Ask"), type_tag_of("User"));
}

#[test]
fn ask_layout_bytes() {
    let a = Ask { ordinal: 1, content: "hi".to_string(), stake: 2 };
    let bytes = encode_ask(&a);
    assert_eq!(bytes.len(), Ask::size(2));
    let mut expected = tag("Ask");
    expected.extend_from_slice(&1u64.to_le_bytes());
    expected.extend_from_slice(&2u32.to_le_bytes());
    expected.extend_from_slice(b"hi");
    expected.extend_from_slice(&2u64.to_le_bytes());
    assert_eq!(bytes, expected);
}

#[test]
fn user_layout_bytes() {
    let u = User { running_ask_ordinal: 3, total_staked: 258 };
    let bytes = encode_user(&u);
    assert_eq!(bytes.len(), 24);
    let mut expected = tag("User");
    expected.extend_from_slice(&3u64.to_le_bytes());
    expected.extend_from_slice(&258u64.to_le_bytes());
    assert_eq!(bytes, expected);
}

#[test]
fn length_prefix_is_little_endian() {
    assert_eq!(le_u32_bytes_of(0x01020304), vec![4, 3, 2, 1]);
}
