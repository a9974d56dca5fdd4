use pixelvault::ledger::Ledger;
use pixelvault::mempool::{Transaction as PendingTransaction, TxMempool};
use pixelvault::signature::SignatureManager;
use pixelvault::text::same_text;
use pixelvault::thringlet::ThringletNFT;
use pixelvault::wallet::Wallet;

fn from_hex(s: &str) -> Vec<u8> {
    (0..s.len()).step_by(2).map(|i| u8::from_str_radix(&s[i..i + 2], 16).unwrap()).collect()
}

const RFC_SECRET: &str = "9d61b19deffd5a60ba844af492ec2cc44449c5697b326919703bac031cae7f60";
const RFC_PUBLIC: &str = "d75a980182b10ab7d54bfed3c964073a0ee172f3daa62325af021a68f707511a";
const RFC_SIGNATURE: &str = "e5564300c360ac729086e2cc806e828a84877f1eb8e5d974d873e065224901555fb8821590a33bacc61e39701cf9b46bd25bf5f0595bbe24655141438e7a100b";

#[test]
fn known_key_signs_as_published() {
    let manager = SignatureManager::from_secret_key(&from_hex(RFC_SECRET)).unwrap();
    assert_eq!(manager.get_public_key(), from_hex(RFC_PUBLIC));
    assert_eq!(manager.get_secret_key(), from_hex(RFC_SECRET));
    let sig = manager.sign(&[]);
    assert_eq!(sig, from_hex(RFC_SIGNATURE));
    assert!(SignatureManager::verify(&from_hex(RFC_PUBLIC), &[], &sig));
    assert!(!SignatureManager::verify(&from_hex(RFC_PUBLIC), b"x", &sig));
    assert!(!SignatureManager::verify(&[1, 2, 3], &[], &sig));
    assert!(!SignatureManager::verify(&from_hex(RFC_PUBLIC), &[], &sig[..10]));
}

#[test]
fn secret_key_needs_thirty_two_bytes() {
    assert!(SignatureManager::from_secret_key(&[0u8; 31]).is_none());
    assert!(SignatureManager::from_secret_key(&[0u8; 33]).is_none());
    assert!(SignatureManager::from_secret_key(&[0u8; 32]).is_some());
}

#[test]
fn fresh_keys_sign_and_verify() {
    let manager = SignatureManager::new();
    assert_eq!(manager.get_secret_key().len(), 32);
    let public = manager.get_public_key();
    assert_eq!(public.len(), 32);
    let sig = manager.sign(b"payload");
    assert_eq!(sig.len(), 64);
    assert!(SignatureManager::verify(&public, b"payload", &sig));
    assert!(!SignatureManager::verify(&public, b"payload!", &sig));
}

#[test]
fn wallet_holds_base64_keys() {
    let manager = SignatureManager::from_secret_key(&from_hex(RFC_SECRET)).unwrap();
    let wallet = Wallet::from_manager(&manager);
    assert_eq!(wallet.public_key, "11qYAYKxCrfVS/7TyWQHOg7hcvPapiMlrwIaaPcHURo=");
    assert_eq!(wallet.secret_key, "nWGxne/9WmC6hEr0kuwsxERJxWl7MmkZcDusAxyuf2A=");
    let zero = SignatureManager::from_secret_key(&[0u8; 32]).unwrap();
    assert_eq!(Wallet::from_manager(&zero).secret_key, "AAAAAAAAAAAAAAAAAAAAAAAAAAAAAAAAAAAAAAAAAAA=");
}

#[test]
fn mempool_admits_signed_in_order() {
    let manager = SignatureManager::new();
    let public = manager.get_public_key();
    let mut pool = TxMempool::new();
    assert_eq!(pool.size(), 0);
    assert!(pool.pop_transaction().is_none());
    let first = PendingTransaction { sender: public.clone(), payload: b"one".to_vec(), signature: manager.sign(b"one") };
    let second = PendingTransaction { sender: public.clone(), payload: b"two".to_vec(), signature: manager.sign(b"two") };
    let forged = PendingTransaction { sender: public.clone(), payload: b"three".to_vec(), signature: manager.sign(b"two") };
    assert!(pool.add_transaction(first));
    assert!(!pool.add_transaction(forged));
    assert!(pool.add_transaction(second));
    assert_eq!(pool.size(), 2);
    let listed = pool.list_transactions();
    assert_eq!(listed.len(), 2);
    assert_eq!(listed[0].payload, b"one".to_vec());
    assert_eq!(listed[1].payload, b"two".to_vec());
    assert_eq!(pool.pop_transaction().unwrap().payload, b"one".to_vec());
    assert_eq!(pool.pop_transaction().unwrap().payload, b"two".to_vec());
    assert!(pool.pop_transaction().is_none());
    assert_eq!(pool.size(), 0);
}

#[test]
fn ledger_credit_and_debit() {
    let mut ledger = Ledger::new();
    assert_eq!(ledger.get_balance("alice"), 0);
    ledger.credit("alice", 50);
    ledger.credit("alice", 25);
    assert_eq!(ledger.get_balance("alice"), 75);
    assert!(ledger.debit("alice", 70));
    assert_eq!(ledger.get_balance("alice"), 5);
    assert!(!ledger.debit("alice", 6));
    assert_eq!(ledger.get_balance("alice"), 5);
    assert!(!ledger.debit("bob", 1));
    assert_eq!(ledger.balances.len(), 2);
    assert_eq!(ledger.get_balance("bob"), 0);
    assert!(ledger.debit("bob", 0));
}

#[test]
fn ledger_nft_holdings() {
    let mut ledger = Ledger::new();
    assert!(ledger.get_nfts("alice").is_empty());
    ledger.mint_nft("alice", "n1");
    ledger.mint_nft("bob", "n2");
    ledger.mint_nft("alice", "n3");
    assert_eq!(ledger.get_nfts("alice"), vec!["n1".to_string(), "n3".to_string()]);
    assert_eq!(ledger.get_nfts("bob"), vec!["n2".to_string()]);
    assert!(ledger.get_nfts("carol").is_empty());
}

#[test]
fn thringlet_moods() {
    let mut t = ThringletNFT::new("t1", "Glim");
    assert_eq!(t.id, "t1");
    assert_eq!(t.to_metadata(), "{\"name\":\"Glim\", \"emotion\":0, \"corruption\":0, \"bonded\":false}");
    t.interact("talk");
    t.interact("talk");
    assert_eq!(t.emotion, 10);
    t.interact("purge");
    assert_eq!(t.emotion, -20);
    assert_eq!(t.corruption, 25);
    assert_eq!(t.to_metadata(), "{\"name\":\"Glim\", \"emotion\":-20, \"corruption\":25, \"bonded\":false}");
    t.interact("inject");
    t.interact("dance");
    assert_eq!((t.emotion, t.corruption), (-20, 25));
    t.interact("reset");
    assert_eq!((t.emotion, t.corruption), (0, 0));
    t.bonded = true;
    t.emotion = -2147483648;
    t.corruption = 1234567890;
    assert_eq!(
        t.to_metadata(),
        "{\"name\":\"Glim\", \"emotion\":-2147483648, \"corruption\":1234567890, \"bonded\":true}"
    );
}

#[test]
fn text_comparison() {
    assert!(same_text("talk", "talk"));
    assert!(!same_text("talk", "talks"));
    assert!(!same_text("talk", "tAlk"));
    assert!(same_text("", ""));
    assert!(same_text("héllo", "héllo"));
}
