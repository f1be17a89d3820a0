//! End-to-end scenarios for the catalog: creation, renaming, recorded price
//! history, and every refusal.

use product_ledger::derive::{
    derive_product_address, derive_counter_address, derive_entry_address,
};
use product_ledger::error::ProductError;
use product_ledger::processor::{add_product, add_price, update_product, process_instruction};
use product_ledger::slot::Slot;
use product_ledger::state::{try_parse_product, try_parse_counter, try_parse_price};

fn fresh_slot(address: Vec<u8>) -> Slot {
    Slot { address, lamports: 0, owner: vec![0u8; 32], data: Vec::new(), is_signer: false }
}

fn signer_slot(address: Vec<u8>, lamports: u64) -> Slot {
    Slot { address, lamports, owner: vec![0u8; 32], data: Vec::new(), is_signer: true }
}

struct World {
    program_id: Vec<u8>,
    signer: Slot,
    product: Slot,
    counter: Slot,
    entry0: Slot,
}

fn created_world() -> World {
    let program_id = vec![7u8; 32];
    let owner_key = vec![1u8; 32];
    let (prod_addr, _) = derive_product_address(&owner_key, 1, &program_id).unwrap();
    let (counter_addr, _) = derive_counter_address(&prod_addr, &program_id).unwrap();
    let (entry0_addr, _) = derive_entry_address(&prod_addr, 0, &program_id).unwrap();
    let mut signer = signer_slot(owner_key, 1_000_000);
    let mut product = fresh_slot(prod_addr);
    let mut counter = fresh_slot(counter_addr);
    let mut entry0 = fresh_slot(entry0_addr);
    let r = add_product(
        &program_id,
        &mut signer,
        &mut product,
        &mut counter,
        &mut entry0,
        1,
        b"Widget".to_vec(),
        9.99f64.to_bits(),
        100,
        20,
        30,
    );
    assert_eq!(r, Ok(()));
    World { program_id, signer, product, counter, entry0 }
}

#[test]
fn create_product_records_first_price() {
    let w = created_world();
    let prec = try_parse_product(&w.product.data).unwrap();
    assert!(prec.is_initialized);
    assert_eq!(prec.discriminator, b"product".to_vec());
    assert_eq!(prec.seller, vec![1u8; 32]);
    assert_eq!(prec.id, 1);
    assert_eq!(prec.name, b"Widget".to_vec());
    assert_eq!(prec.price, 9.99f64.to_bits());
    let crec = try_parse_counter(&w.counter.data).unwrap();
    assert!(crec.is_initialized);
    assert_eq!(crec.discriminator, b"counter".to_vec());
    assert_eq!(crec.counter, 1);
    let erec = try_parse_price(&w.entry0.data).unwrap();
    assert!(erec.is_initialized);
    assert_eq!(erec.discriminator, b"price".to_vec());
    assert_eq!(erec.product, w.product.address);
    assert_eq!(erec.price, 9.99f64.to_bits());
    assert_eq!(w.product.data.len(), 1000);
    assert_eq!(w.counter.data.len(), 20);
    assert_eq!(w.entry0.data.len(), 50);
    assert_eq!(w.product.owner, w.program_id);
    assert_eq!(w.signer.lamports, 1_000_000 - 100 - 20 - 30);
    assert_eq!(w.product.lamports, 100);
    assert_eq!(w.counter.lamports, 20);
    assert_eq!(w.entry0.lamports, 30);
}

#[test]
fn second_create_fails_already_initialized() {
    let mut w = created_world();
    let product_before = w.product.data.clone();
    let counter_before = w.counter.data.clone();
    let mut counter2 = fresh_slot(w.counter.address.clone());
    let mut entry2 = fresh_slot(w.entry0.address.clone());
    let r = add_product(
        &w.program_id,
        &mut w.signer,
        &mut w.product,
        &mut counter2,
        &mut entry2,
        1,
        b"Widget".to_vec(),
        9.99f64.to_bits(),
        100,
        20,
        30,
    );
    assert_eq!(r, Err(ProductError::AlreadyInitialized));
    assert_eq!(w.product.data, product_before);
    assert_eq!(w.counter.data, counter_before);
}

#[test]
fn record_price_twice_counts_to_three() {
    let mut w = created_world();
    let entry0_before = w.entry0.data.clone();
    let mut addresses = vec![w.entry0.address.clone()];
    for (n, bits) in [(1u64, 12.50f64.to_bits()), (2u64, 15.00f64.to_bits())] {
        let (entry_addr, _) = derive_entry_address(&w.product.address, n, &w.program_id).unwrap();
        let mut entry = fresh_slot(entry_addr.clone());
        let r = add_price(
            &w.program_id,
            &mut w.signer,
            &mut w.product,
            &mut w.counter,
            &mut entry,
            bits,
            30,
        );
        assert_eq!(r, Ok(()));
        let crec = try_parse_counter(&w.counter.data).unwrap();
        assert_eq!(crec.counter, n + 1);
        let erec = try_parse_price(&entry.data).unwrap();
        assert_eq!(erec.price, bits);
        assert_eq!(erec.product, w.product.address);
        addresses.push(entry_addr);
    }
    // the entry addresses form a collision-free sequence, and entry 0 is
    // never overwritten
    assert_ne!(addresses[0], addresses[1]);
    assert_ne!(addresses[0], addresses[2]);
    assert_ne!(addresses[1], addresses[2]);
    assert_eq!(w.entry0.data, entry0_before);
    let prec = try_parse_product(&w.product.data).unwrap();
    assert_eq!(prec.price, 15.00f64.to_bits());
    assert_eq!(prec.name, b"Widget".to_vec());
}

#[test]
fn rename_by_owner_changes_only_the_name() {
    let mut w = created_world();
    w.product.owner = w.program_id.clone();
    let r = update_product(&w.program_id, &w.signer, &mut w.product, b"Gadget".to_vec());
    assert_eq!(r, Ok(()));
    let prec = try_parse_product(&w.product.data).unwrap();
    assert_eq!(prec.name, b"Gadget".to_vec());
    assert_eq!(prec.id, 1);
    assert_eq!(prec.price, 9.99f64.to_bits());
    assert_eq!(prec.seller, vec![1u8; 32]);
    assert_eq!(w.product.data.len(), 1000);
}

#[test]
fn rename_by_non_owner_signer_fails_address_mismatch() {
    let mut w = created_world();
    let before = w.product.data.clone();
    let intruder = signer_slot(vec![2u8; 32], 0);
    let r = update_product(&w.program_id, &intruder, &mut w.product, b"Stolen".to_vec());
    assert_eq!(r, Err(ProductError::AddressMismatch));
    assert_eq!(w.product.data, before);
}

#[test]
fn rename_without_signature_fails_missing_signature() {
    let mut w = created_world();
    let before = w.product.data.clone();
    let mut not_signed = w.signer.clone();
    not_signed.is_signer = false;
    let r = update_product(&w.program_id, &not_signed, &mut w.product, b"Quiet".to_vec());
    assert_eq!(r, Err(ProductError::MissingSignature));
    assert_eq!(w.product.data, before);
}

#[test]
fn rename_on_foreign_slot_fails_illegal_owner() {
    let mut w = created_world();
    w.product.owner = vec![9u8; 32];
    let r = update_product(&w.program_id, &w.signer, &mut w.product, b"Gadget".to_vec());
    assert_eq!(r, Err(ProductError::IllegalOwner));
}

#[test]
fn rename_uninitialized_record_fails() {
    let program_id = vec![7u8; 32];
    let owner_key = vec![1u8; 32];
    let seller = signer_slot(owner_key, 0);
    // an allocated but never written slot: zeroed contents, so the parsed
    // record's id is 0 and the flag is clear
    let (zero_addr, _) = derive_product_address(&seller.address, 0, &program_id).unwrap();
    let mut product = Slot {
        address: zero_addr,
        lamports: 1,
        owner: program_id.clone(),
        data: vec![0u8; 1000],
        is_signer: false,
    };
    let r = update_product(&program_id, &seller, &mut product, b"Gadget".to_vec());
    assert_eq!(r, Err(ProductError::UninitializedAccount));
}

#[test]
fn rename_to_empty_or_oversized_name_fails_invalid_input() {
    let mut w = created_world();
    w.product.owner = w.program_id.clone();
    let r = update_product(&w.program_id, &w.signer, &mut w.product, Vec::new());
    assert_eq!(r, Err(ProductError::InvalidInput));
    let r = update_product(&w.program_id, &w.signer, &mut w.product, vec![b'x'; 937]);
    assert_eq!(r, Err(ProductError::InvalidInput));
    let r = update_product(&w.program_id, &w.signer, &mut w.product, vec![b'x'; 936]);
    assert_eq!(r, Ok(()));
}

#[test]
fn create_with_empty_name_allocates_nothing() {
    let program_id = vec![7u8; 32];
    let owner_key = vec![1u8; 32];
    let (prod_addr, _) = derive_product_address(&owner_key, 1, &program_id).unwrap();
    let mut signer = signer_slot(owner_key, 1_000_000);
    let mut product = fresh_slot(prod_addr);
    let mut counter = fresh_slot(vec![0u8; 32]);
    let mut entry = fresh_slot(vec![0u8; 32]);
    let r = add_product(
        &program_id,
        &mut signer,
        &mut product,
        &mut counter,
        &mut entry,
        1,
        Vec::new(),
        9.99f64.to_bits(),
        100,
        20,
        30,
    );
    assert_eq!(r, Err(ProductError::InvalidInput));
    assert_eq!(product.data.len(), 0);
    assert_eq!(product.lamports, 0);
    assert_eq!(counter.data.len(), 0);
    assert_eq!(entry.data.len(), 0);
    assert_eq!(signer.lamports, 1_000_000);
}

#[test]
fn create_with_non_positive_price_fails_invalid_input() {
    let program_id = vec![7u8; 32];
    let owner_key = vec![1u8; 32];
    let (prod_addr, _) = derive_product_address(&owner_key, 1, &program_id).unwrap();
    for bits in [0.0f64.to_bits(), (-1.0f64).to_bits(), f64::NAN.to_bits()] {
        let mut signer = signer_slot(owner_key.clone(), 1_000_000);
        let mut product = fresh_slot(prod_addr.clone());
        let mut counter = fresh_slot(vec![0u8; 32]);
        let mut entry = fresh_slot(vec![0u8; 32]);
        let r = add_product(
            &program_id,
            &mut signer,
            &mut product,
            &mut counter,
            &mut entry,
            1,
            b"Widget".to_vec(),
            bits,
            100,
            20,
            30,
        );
        assert_eq!(r, Err(ProductError::InvalidInput));
    }
}

#[test]
fn create_at_wrong_address_fails_address_mismatch() {
    let program_id = vec![7u8; 32];
    let owner_key = vec![1u8; 32];
    let mut signer = signer_slot(owner_key, 1_000_000);
    let mut product = fresh_slot(vec![5u8; 32]);
    let mut counter = fresh_slot(vec![0u8; 32]);
    let mut entry = fresh_slot(vec![0u8; 32]);
    let r = add_product(
        &program_id,
        &mut signer,
        &mut product,
        &mut counter,
        &mut entry,
        1,
        b"Widget".to_vec(),
        9.99f64.to_bits(),
        100,
        20,
        30,
    );
    assert_eq!(r, Err(ProductError::AddressMismatch));
}

#[test]
fn create_without_signature_fails() {
    let program_id = vec![7u8; 32];
    let owner_key = vec![1u8; 32];
    let (prod_addr, _) = derive_product_address(&owner_key, 1, &program_id).unwrap();
    let mut signer = signer_slot(owner_key, 1_000_000);
    signer.is_signer = false;
    let mut product = fresh_slot(prod_addr);
    let mut counter = fresh_slot(vec![0u8; 32]);
    let mut entry = fresh_slot(vec![0u8; 32]);
    let r = add_product(
        &program_id,
        &mut signer,
        &mut product,
        &mut counter,
        &mut entry,
        1,
        b"Widget".to_vec(),
        9.99f64.to_bits(),
        100,
        20,
        30,
    );
    assert_eq!(r, Err(ProductError::MissingSignature));
}

#[test]
fn create_without_funds_fails_insufficient_funds() {
    let program_id = vec![7u8; 32];
    let owner_key = vec![1u8; 32];
    let (prod_addr, _) = derive_product_address(&owner_key, 1, &program_id).unwrap();
    let mut signer = signer_slot(owner_key, 50);
    let mut product = fresh_slot(prod_addr);
    let mut counter = fresh_slot(vec![0u8; 32]);
    let mut entry = fresh_slot(vec![0u8; 32]);
    let r = add_product(
        &program_id,
        &mut signer,
        &mut product,
        &mut counter,
        &mut entry,
        1,
        b"Widget".to_vec(),
        9.99f64.to_bits(),
        100,
        20,
        30,
    );
    assert_eq!(r, Err(ProductError::InsufficientFunds));
    assert_eq!(signer.lamports, 50);
    assert_eq!(product.data.len(), 0);
}

#[test]
fn record_price_at_wrong_entry_slot_fails() {
    let mut w = created_world();
    let mut entry = fresh_slot(vec![5u8; 32]);
    let r = add_price(
        &w.program_id,
        &mut w.signer,
        &mut w.product,
        &mut w.counter,
        &mut entry,
        12.5f64.to_bits(),
        30,
    );
    assert_eq!(r, Err(ProductError::AddressMismatch));
    assert_eq!(try_parse_counter(&w.counter.data).unwrap().counter, 1);
}

#[test]
fn process_instruction_dispatches_create() {
    let program_id = vec![7u8; 32];
    let owner_key = vec![1u8; 32];
    let (prod_addr, _) = derive_product_address(&owner_key, 1, &program_id).unwrap();
    let (counter_addr, _) = derive_counter_address(&prod_addr, &program_id).unwrap();
    let (entry0_addr, _) = derive_entry_address(&prod_addr, 0, &program_id).unwrap();
    let mut accounts = vec![
        signer_slot(owner_key, 1_000_000),
        fresh_slot(prod_addr),
        fresh_slot(counter_addr),
        fresh_slot(entry0_addr),
        fresh_slot(vec![0u8; 32]),
    ];
    // variant 0, id, length-prefixed name, price bits
    let mut data = vec![0u8];
    data.extend_from_slice(&1u64.to_le_bytes());
    data.extend_from_slice(&(6u32).to_le_bytes());
    data.extend_from_slice(b"Widget");
    data.extend_from_slice(&9.99f64.to_bits().to_le_bytes());
    let r = process_instruction(&program_id, &mut accounts, &data, 100, 20, 30);
    assert_eq!(r, Ok(()));
    assert_eq!(try_parse_counter(&accounts[2].data).unwrap().counter, 1);
    assert_eq!(try_parse_product(&accounts[1].data).unwrap().name, b"Widget".to_vec());
}

#[test]
fn process_instruction_with_too_few_slots_fails() {
    let program_id = vec![7u8; 32];
    let mut accounts = vec![signer_slot(vec![1u8; 32], 0)];
    let mut data = vec![1u8];
    data.extend_from_slice(&(1u32).to_le_bytes());
    data.push(b'x');
    let r = process_instruction(&program_id, &mut accounts, &data, 100, 20, 30);
    assert_eq!(r, Err(ProductError::NotEnoughSlots));
}

#[test]
fn process_instruction_rejects_unknown_command() {
    let program_id = vec![7u8; 32];
    let mut accounts = Vec::new();
    let r = process_instruction(&program_id, &mut accounts, &vec![9u8], 100, 20, 30);
    assert_eq!(r, Err(ProductError::InvalidCommand));
}
