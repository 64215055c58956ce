use aa_factory::derivation::{derive_escrow_address, escrow_tag, factory_program_id};
use aa_factory::errors::EscrowError;
use aa_factory::escrow::{CreateEscrow, EscrowStore};
use aa_factory::ids::{Address, PartyId};
use aa_factory::ESCROW_ACCOUNT_SPACE;
use anchor_lang::prelude::Pubkey;

fn party(label: &str) -> PartyId {
    let mut bytes = label.as_bytes().to_vec();
    assert!(bytes.len() <= 32);
    bytes.resize(32, 0);
    PartyId::from_bytes(bytes).unwrap()
}

fn request(from: &str, to: &str, payer: &str, balance: u64) -> CreateEscrow {
    CreateEscrow {
        from: party(from),
        to: party(to),
        paymaster: party(payer),
        from_signed: true,
        paymaster_signed: true,
        paymaster_balance: balance,
    }
}

fn derive(from: &str, to: &str, salt: u64) -> (Address, u8) {
    let program_id = factory_program_id();
    derive_escrow_address(&party(from), &party(to), salt, &program_id).unwrap()
}

#[test]
fn record_layout_constants() {
    assert_eq!(ESCROW_ACCOUNT_SPACE, 80);
    assert_eq!(escrow_tag(), b"v1.0.1".to_vec());
    assert_eq!(factory_program_id().as_slice().len(), 32);
}

#[test]
fn party_id_rejects_wrong_width() {
    assert!(PartyId::from_bytes(vec![7u8; 31]).is_none());
    assert!(PartyId::from_bytes(vec![7u8; 33]).is_none());
    assert!(PartyId::from_bytes(vec![7u8; 32]).is_some());
    assert!(Address::from_bytes(vec![7u8; 31]).is_none());
    assert!(Address::from_bytes(vec![7u8; 32]).is_some());
}

#[test]
fn derivation_is_deterministic() {
    let (addr1, bump1) = derive("alice", "bob", 42);
    let (addr2, bump2) = derive("alice", "bob", 42);
    assert_eq!(addr1.as_slice(), addr2.as_slice());
    assert_eq!(bump1, bump2);
}

#[test]
fn derivation_matches_host_search() {
    // The verified descending-nonce search must land on exactly the pair the
    // host runtime's own search returns.
    let program_id = factory_program_id();
    let pid_arr: [u8; 32] = program_id.as_slice().try_into().unwrap();
    let pid = Pubkey::new_from_array(pid_arr);
    for salt in [0u64, 1, 42, u64::MAX] {
        let a = party("alice");
        let b = party("bob");
        let salt_bytes = salt.to_le_bytes();
        let (expected, expected_bump) = Pubkey::find_program_address(
            &[b"v1.0.1".as_slice(), a.as_slice(), b.as_slice(), salt_bytes.as_slice()],
            &pid,
        );
        let (addr, bump) = derive("alice", "bob", salt);
        assert_eq!(addr.as_slice(), expected.to_bytes().as_slice());
        assert_eq!(bump, expected_bump);
    }
}

#[test]
fn derived_addresses_differ_across_inputs() {
    // Practical injectivity, checked over sampled triples: distinct
    // (party A, party B, salt) inputs land on distinct addresses.
    let mut addresses: Vec<Vec<u8>> = Vec::new();
    for from in ["alice", "carol"] {
        for to in ["bob", "dave"] {
            for salt in [0u64, 1, 42, 1u64 << 40] {
                let (addr, _) = derive(from, to, salt);
                addresses.push(addr.as_slice().to_vec());
            }
        }
    }
    // Order matters in the triple as well.
    let (swapped, _) = derive("bob", "alice", 42);
    addresses.push(swapped.as_slice().to_vec());
    for i in 0..addresses.len() {
        for j in (i + 1)..addresses.len() {
            assert_ne!(addresses[i], addresses[j]);
        }
    }
}

#[test]
fn derived_address_is_not_an_input() {
    let (addr, _) = derive("alice", "bob", 42);
    assert_ne!(addr.as_slice(), party("alice").as_slice());
    assert_ne!(addr.as_slice(), party("bob").as_slice());
    assert_ne!(addr.as_slice(), factory_program_id().as_slice());
    assert_ne!(addr.as_slice(), escrow_tag().as_slice());
}

#[test]
fn create_escrow_single_creation() {
    let mut store = EscrowStore::new(factory_program_id(), 1_000);
    let ctx = request("alice", "bob", "alice", 5_000);
    assert!(store.create_escrow(&ctx, 7).is_ok());
    assert!(matches!(store.create_escrow(&ctx, 7), Err(EscrowError::AlreadyExists)));
}

#[test]
fn create_escrow_field_fidelity() {
    let mut store = EscrowStore::new(factory_program_id(), 1_000);
    let ctx = request("alice", "bob", "payer", 5_000);
    let record = store.create_escrow(&ctx, 42).unwrap();
    assert_eq!(record.from.as_slice(), party("alice").as_slice());
    assert_eq!(record.to.as_slice(), party("bob").as_slice());
    assert_eq!(record.salt, 42);
    let (addr, _) = derive("alice", "bob", 42);
    let stored = store.get_record(&addr).unwrap();
    assert_eq!(stored.from.as_slice(), party("alice").as_slice());
    assert_eq!(stored.to.as_slice(), party("bob").as_slice());
    assert_eq!(stored.salt, 42);
}

#[test]
fn create_escrow_unauthorized_without_party_a_proof() {
    let mut store = EscrowStore::new(factory_program_id(), 1_000);
    let mut ctx = request("alice", "bob", "alice", 5_000);
    ctx.from_signed = false;
    assert!(matches!(store.create_escrow(&ctx, 42), Err(EscrowError::Unauthorized)));
    // The failed attempt left no trace: the same triple still creates.
    ctx.from_signed = true;
    assert!(store.create_escrow(&ctx, 42).is_ok());
}

#[test]
fn create_escrow_unauthorized_without_payer_proof() {
    let mut store = EscrowStore::new(factory_program_id(), 1_000);
    let mut ctx = request("alice", "bob", "payer", 5_000);
    ctx.paymaster_signed = false;
    assert!(matches!(store.create_escrow(&ctx, 42), Err(EscrowError::Unauthorized)));
}

#[test]
fn create_escrow_insufficient_funds() {
    let mut store = EscrowStore::new(factory_program_id(), 1_000);
    let ctx = request("alice", "bob", "payer", 999);
    assert!(matches!(store.create_escrow(&ctx, 42), Err(EscrowError::InsufficientFunds)));
    // With the minimum balance exactly covered, the same triple creates.
    let funded = request("alice", "bob", "payer", 1_000);
    assert!(store.create_escrow(&funded, 42).is_ok());
}

#[test]
fn create_escrow_scenario() {
    // alice and bob, salt 42, alice paying with sufficient funds.
    let mut store = EscrowStore::new(factory_program_id(), 1_000);
    let ctx = request("alice", "bob", "alice", 10_000);
    let record = store.create_escrow(&ctx, 42).unwrap();
    assert_eq!(record.from.as_slice(), party("alice").as_slice());
    assert_eq!(record.to.as_slice(), party("bob").as_slice());
    assert_eq!(record.salt, 42);

    // Re-invoking with the same triple fails: creation is one-shot.
    assert!(matches!(store.create_escrow(&ctx, 42), Err(EscrowError::AlreadyExists)));

    // Salt 43 instead: a new, distinct record at a different address.
    let record2 = store.create_escrow(&ctx, 43).unwrap();
    assert_eq!(record2.salt, 43);
    let (addr42, _) = derive("alice", "bob", 42);
    let (addr43, _) = derive("alice", "bob", 43);
    assert_ne!(addr42.as_slice(), addr43.as_slice());
    assert_eq!(store.get_record(&addr42).unwrap().salt, 42);
    assert_eq!(store.get_record(&addr43).unwrap().salt, 43);
}

#[test]
fn get_record_unknown_address_is_none() {
    let store = EscrowStore::new(factory_program_id(), 1_000);
    let unknown = Address::from_bytes(vec![9u8; 32]).unwrap();
    assert!(store.get_record(&unknown).is_none());
    assert!(!store.contains_address(&unknown));
}

#[test]
fn store_keeps_its_configuration() {
    let mut store = EscrowStore::new(factory_program_id(), 1_000);
    assert_eq!(store.min_balance(), 1_000);
    assert_eq!(store.program_id().as_slice(), factory_program_id().as_slice());
    let ctx = request("alice", "bob", "alice", 5_000);
    store.create_escrow(&ctx, 42).unwrap();
    // Creation never changes the startup configuration.
    assert_eq!(store.min_balance(), 1_000);
    assert_eq!(store.program_id().as_slice(), factory_program_id().as_slice());
}
