use ledger_chain::canonical::Canonical;
use ledger_chain::chain::Chain;
use ledger_chain::digest::digest_of;
use ledger_chain::record::{Blockheader, Transaction};

fn transfer(sender: &str, receiver: &str, amount: &str) -> Transaction {
    Transaction {
        sender: sender.to_string(),
        receiver: receiver.to_string(),
        amount: amount.to_string(),
    }
}

fn is_lower_hex(text: &str) -> bool {
    text.chars().all(|c| c.is_ascii_digit() || ('a'..='f').contains(&c))
}

#[test]
fn hex_of_no_bytes_is_empty() {
    assert_eq!(Chain::hex_to_string(&[]), "");
}

#[test]
fn hex_is_lowercase_and_zero_padded() {
    assert_eq!(Chain::hex_to_string(&[0x00, 0x0f, 0xa5, 0xff]), "000fa5ff");
    assert_eq!(Chain::hex_to_string(&[0x10, 0x09, 0x9a, 0xbc]), "10099abc");
}

#[test]
fn hex_covers_every_byte_value() {
    let bytes: Vec<u8> = (0..=255).collect();
    let text = Chain::hex_to_string(&bytes);
    assert_eq!(text.len(), 512);
    for b in 0..=255usize {
        assert_eq!(&text[2 * b..2 * b + 2], format!("{:02x}", b));
    }
}

#[test]
fn digest_matches_known_sha256_vectors() {
    assert_eq!(
        digest_of("abc"),
        "ba7816bf8f01cfea414140de5dae2223b00361a396177a9cb410ff61f20015ad"
    );
    assert_eq!(
        digest_of(""),
        "e3b0c44298fc1c149afbf4c8996fb92427ae41e4649b934ca495991b7852b855"
    );
}

#[test]
fn hash_of_a_text_covers_its_json_literal() {
    let text = "abc".to_string();
    assert_eq!(text.to_canonical(), "\"abc\"");
    assert_eq!(
        Chain::hash(&text),
        "6cc43f858fbb763301637b5af970e2a46b46f461f27e5a0f41e009c59b827b25"
    );
    assert_eq!(Chain::hash(&text), digest_of("\"abc\""));
    assert_ne!(Chain::hash(&text), digest_of("abc"));
}

#[test]
fn hash_is_64_lowercase_hex_characters() {
    let samples = [
        Chain::hash(&String::new()),
        Chain::hash(&"x".repeat(1000)),
        Chain::hash(&transfer("A", "B", "1.0")),
    ];
    for h in samples.iter() {
        assert_eq!(h.chars().count(), 64);
        assert!(is_lower_hex(h));
    }
}

#[test]
fn hash_is_deterministic() {
    let a = transfer("A", "B", "10.0");
    let b = transfer("A", "B", "10.0");
    assert_eq!(Chain::hash(&a), Chain::hash(&b));
    assert_eq!(Chain::hash(&a), Chain::hash(&a));
}

#[test]
fn hash_changes_with_each_field() {
    let base = Chain::hash(&transfer("A", "B", "10.0"));
    assert_ne!(base, Chain::hash(&transfer("X", "B", "10.0")));
    assert_ne!(base, Chain::hash(&transfer("A", "X", "10.0")));
    assert_ne!(base, Chain::hash(&transfer("A", "B", "10.5")));
    assert_ne!(base, Chain::hash(&transfer("B", "A", "10.0")));
}

#[test]
fn transfer_text_has_fields_in_order() {
    let t = transfer("Root", "M", "100.0");
    assert_eq!(
        t.to_canonical(),
        "{\"sender\":\"Root\",\"receiver\":\"M\",\"amount\":100.0}"
    );
    assert_eq!(
        Chain::hash(&t),
        "b101a53621f4806d75670a7b600c4487cd537c563c9b2485e3fd02f43e8c398e"
    );
}

#[test]
fn transfer_text_escapes_reserved_characters() {
    let t = transfer("a\"b\\c", "line\nbreak\ttab\u{1}", "-2.5");
    assert_eq!(
        t.to_canonical(),
        "{\"sender\":\"a\\\"b\\\\c\",\"receiver\":\"line\\nbreak\\ttab\\u0001\",\"amount\":-2.5}"
    );
    assert_eq!(
        Chain::hash(&t),
        "e46f7a9418d4ca35bb5098892d5f4b0a7183e8df1fd06f8303dcc68f052f4f65"
    );
}

#[test]
fn transfer_text_keeps_characters_outside_ascii() {
    let t = transfer("Zoë", "日本", "1e-7");
    assert_eq!(
        t.to_canonical(),
        "{\"sender\":\"Zoë\",\"receiver\":\"日本\",\"amount\":1e-7}"
    );
    assert_eq!(
        Chain::hash(&t),
        "2274216c1bc63a9167ac22640dec80d4ae48b7d0495d5921724305eff6cf1817"
    );
}

#[test]
fn transfer_assemble_frames_rendered_fields() {
    assert_eq!(
        Transaction::assemble("\"A\"", "\"B\"", "10.0"),
        "{\"sender\":\"A\",\"receiver\":\"B\",\"amount\":10.0}"
    );
    assert_eq!(
        Transaction::assemble("", "", ""),
        "{\"sender\":,\"receiver\":,\"amount\":}"
    );
}

#[test]
fn header_text_has_fields_in_order() {
    let h = Blockheader {
        timestamp: 1700000000000,
        nonce: 0,
        pre_hash: "0".repeat(64),
        merkle: "4853ceef9fde29b68625d9929471803e74a4d65ff0e0ae5565911ea549423b86".to_string(),
        difficulty: 1,
    };
    assert_eq!(
        h.to_canonical(),
        "{\"timestamp\":1700000000000,\"nonce\":0,\"pre_hash\":\"0000000000000000000000000000000000000000000000000000000000000000\",\"merkle\":\"4853ceef9fde29b68625d9929471803e74a4d65ff0e0ae5565911ea549423b86\",\"difficulty\":1}"
    );
    assert_eq!(
        Chain::hash(&h),
        "ce53548dbb97b1c41d25ad8e0fe7dab15750c661b9de94cc9c9fe316bb4cea9b"
    );
}

#[test]
fn header_text_renders_negative_and_extreme_numbers() {
    let h = Blockheader {
        timestamp: -5,
        nonce: u32::MAX,
        pre_hash: "p\"q".to_string(),
        merkle: String::new(),
        difficulty: 0,
    };
    assert_eq!(
        h.to_canonical(),
        "{\"timestamp\":-5,\"nonce\":4294967295,\"pre_hash\":\"p\\\"q\",\"merkle\":\"\",\"difficulty\":0}"
    );
    assert_eq!(
        Chain::hash(&h),
        "b4d8b65c4bbc1e30237cec4ea8c37f499097f4e7393f63c25eaa7dc2b64a054c"
    );
    let low = Blockheader {
        timestamp: i64::MIN,
        nonce: 0,
        pre_hash: String::new(),
        merkle: String::new(),
        difficulty: u32::MAX,
    };
    assert_eq!(
        low.to_canonical(),
        "{\"timestamp\":-9223372036854775808,\"nonce\":0,\"pre_hash\":\"\",\"merkle\":\"\",\"difficulty\":4294967295}"
    );
    assert_eq!(
        Chain::hash(&low),
        "5d0359cb8847ef57238096a5c76e28c6dbe7ac49989a27312a2531af735fac97"
    );
}

#[test]
fn header_assemble_frames_rendered_fields() {
    assert_eq!(
        Blockheader::assemble("1", "2", "\"p\"", "\"m\"", "3"),
        "{\"timestamp\":1,\"nonce\":2,\"pre_hash\":\"p\",\"merkle\":\"m\",\"difficulty\":3}"
    );
}

#[test]
fn header_hash_depends_on_nonce() {
    let make = |nonce: u32| Blockheader {
        timestamp: 7,
        nonce,
        pre_hash: "0".repeat(64),
        merkle: String::new(),
        difficulty: 0,
    };
    assert_ne!(Chain::hash(&make(0)), Chain::hash(&make(1)));
    assert_eq!(Chain::hash(&make(5)), Chain::hash(&make(5)));
}

#[test]
fn transfer_clone_keeps_every_field() {
    let t = transfer("A", "B", "10.0");
    let c = t.clone();
    assert_eq!(c, t);
    assert_eq!(c.sender, "A");
    assert_eq!(c.receiver, "B");
    assert_eq!(c.amount, "10.0");
}

#[test]
fn amounts_render_as_the_ledger_expects() {
    assert_eq!(serde_json::to_string(&100.0f32).unwrap(), "100.0");
    assert_eq!(serde_json::to_string(&10.0f32).unwrap(), "10.0");
    assert_eq!(serde_json::to_string(&-2.5f32).unwrap(), "-2.5");
}
