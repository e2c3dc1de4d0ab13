use ledger_chain::chain::Chain;
use ledger_chain::pow::meets_difficulty;
use ledger_chain::record::Blockheader;

fn template(difficulty: u32, nonce: u32) -> Blockheader {
    Blockheader {
        timestamp: 1700000000000,
        nonce,
        pre_hash: "0".repeat(64),
        merkle: "4853ceef9fde29b68625d9929471803e74a4d65ff0e0ae5565911ea549423b86".to_string(),
        difficulty,
    }
}

#[test]
fn every_hash_meets_difficulty_zero() {
    assert!(meets_difficulty("abc", 0));
    assert!(meets_difficulty("", 0));
    assert!(meets_difficulty("000", 0));
}

#[test]
fn difficulty_counts_leading_zeros() {
    assert!(meets_difficulty("0abc", 1));
    assert!(!meets_difficulty("0abc", 2));
    assert!(meets_difficulty("00a0", 2));
    assert!(!meets_difficulty("a000", 1));
    assert!(meets_difficulty("0000", 4));
}

#[test]
fn difficulty_beyond_the_hash_is_never_met() {
    assert!(!meets_difficulty("0000", 5));
    assert!(!meets_difficulty("", 1));
    assert!(!meets_difficulty(&"0".repeat(64), 65));
    assert!(meets_difficulty(&"0".repeat(64), 64));
    assert!(!meets_difficulty(&"0".repeat(64), u32::MAX));
}

#[test]
fn mining_at_difficulty_zero_keeps_the_nonce() {
    let mut h = template(0, 0);
    assert!(Chain::proof_of_work(&mut h));
    assert_eq!(h, template(0, 0));
    let mut later = template(0, 77);
    assert!(Chain::proof_of_work(&mut later));
    assert_eq!(later.nonce, 77);
}

#[test]
fn mining_finds_the_first_nonce() {
    let mut h = template(1, 0);
    assert!(Chain::proof_of_work(&mut h));
    assert_eq!(h.nonce, 3);
    assert_eq!(
        Chain::hash(&h),
        "0757c4ef1b3c28b1fbaa2463c264fbe188e15d0f5506665cba396984f8b1a21d"
    );
    for earlier in 0..3 {
        assert!(!Chain::hash(&template(1, earlier)).starts_with('0'));
    }
}

#[test]
fn mining_at_difficulty_two() {
    let mut h = template(2, 0);
    assert!(Chain::proof_of_work(&mut h));
    assert_eq!(h.nonce, 1281);
    assert_eq!(
        Chain::hash(&h),
        "000a50eca5a160c3372e3ffc9295054ca0562baa306ac157c830b7ea9a8d30a7"
    );
}

#[test]
fn mining_changes_only_the_nonce() {
    let mut h = template(2, 0);
    assert!(Chain::proof_of_work(&mut h));
    let nonce = h.nonce;
    assert_eq!(h, template(2, nonce));
}

#[test]
fn mining_starts_from_the_nonce_it_is_given() {
    let mut h = template(1, 1000);
    assert!(Chain::proof_of_work(&mut h));
    assert_eq!(h.nonce, 1025);
    assert_eq!(
        Chain::hash(&h),
        "0e3edb440b676d06870fe67c4cfa02286246c0ac3759aba08d65f1d67dbd8bd7"
    );
}

#[test]
fn mining_an_already_solved_header_changes_nothing() {
    let mut h = template(1, 3);
    assert!(Chain::proof_of_work(&mut h));
    assert_eq!(h.nonce, 3);
}

#[test]
fn mining_fails_where_no_hash_can_meet_the_difficulty() {
    let mut h = template(65, 9);
    assert!(!Chain::proof_of_work(&mut h));
    assert_eq!(h, template(65, 9));
    let mut far = template(u32::MAX, 0);
    assert!(!Chain::proof_of_work(&mut far));
    assert_eq!(far, template(u32::MAX, 0));
}

#[test]
fn mining_gives_up_at_the_last_nonce() {
    let last = template(1, u32::MAX);
    let solved = Chain::hash(&last).starts_with('0');
    let mut h = template(1, u32::MAX);
    assert_eq!(Chain::proof_of_work(&mut h), solved);
    assert_eq!(h, last);
}
