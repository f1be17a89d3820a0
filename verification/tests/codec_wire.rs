//! The byte layout against an independent implementation of the same wire
//! format, the command decoder, and the address deriver against the host
//! primitive it relies on.

use product_ledger::codec::{u32_to_le_vec, u64_to_le_vec, u64_to_be_vec};
use product_ledger::derive::derive_product_address;
use product_ledger::error::ProductError;
use product_ledger::instruction::ProductInstruction;
use product_ledger::state::{
    is_price_positive,
    ProductAccountState, ProductPriceCounter, ProductPrice, serialize_product, serialize_counter,
    serialize_price, try_parse_product, try_parse_counter, try_parse_price,
};

#[test]
fn integer_images_match_borsh() {
    assert_eq!(u32_to_le_vec(0xdeadbeef), borsh::to_vec(&0xdeadbeefu32).unwrap());
    assert_eq!(u64_to_le_vec(123_456_789_012), borsh::to_vec(&123_456_789_012u64).unwrap());
    assert_eq!(u64_to_be_vec(1), vec![0, 0, 0, 0, 0, 0, 0, 1]);
    assert_eq!(u64_to_be_vec(0x0102030405060708), vec![1, 2, 3, 4, 5, 6, 7, 8]);
}

#[test]
fn product_record_layout_matches_borsh() {
    let rec = ProductAccountState {
        discriminator: b"product".to_vec(),
        is_initialized: true,
        seller: vec![3u8; 32],
        id: 7,
        name: b"Widget".to_vec(),
        price: 9.99f64.to_bits(),
    };
    let ours = serialize_product(&rec);
    let theirs = borsh::to_vec(
        &("product".to_string(), true, [3u8; 32], 7u64, "Widget".to_string(), 9.99f64),
    )
    .unwrap();
    assert_eq!(ours, theirs);
    assert_eq!(ours.len(), 64 + 6);
    assert_eq!(ProductAccountState::get_account_size(&rec.name), ours.len());
    let back = try_parse_product(&ours).unwrap();
    assert_eq!(back.name, rec.name);
    assert_eq!(back.id, rec.id);
    assert_eq!(back.price, rec.price);
    assert_eq!(back.seller, rec.seller);
    assert!(back.is_initialized);
}

#[test]
fn counter_record_layout_matches_borsh() {
    let rec = ProductPriceCounter {
        discriminator: b"counter".to_vec(),
        is_initialized: true,
        counter: 41,
    };
    let ours = serialize_counter(&rec);
    let theirs = borsh::to_vec(&("counter".to_string(), true, 41u64)).unwrap();
    assert_eq!(ours, theirs);
    assert_eq!(ours.len(), 20);
    let back = try_parse_counter(&ours).unwrap();
    assert_eq!(back.counter, 41);
}

#[test]
fn price_record_layout_matches_borsh() {
    let rec = ProductPrice {
        discriminator: b"price".to_vec(),
        is_initialized: true,
        product: vec![9u8; 32],
        price: 12.5f64.to_bits(),
    };
    let ours = serialize_price(&rec);
    let theirs = borsh::to_vec(&("price".to_string(), true, [9u8; 32], 12.5f64)).unwrap();
    assert_eq!(ours, theirs);
    assert_eq!(ours.len(), 50);
    let back = try_parse_price(&ours).unwrap();
    assert_eq!(back.product, vec![9u8; 32]);
    assert_eq!(back.price, 12.5f64.to_bits());
}

#[test]
fn zeroed_buffers_parse_as_uninitialized_records() {
    let product = try_parse_product(&vec![0u8; 1000]).unwrap();
    assert!(!product.is_initialized);
    assert_eq!(product.id, 0);
    assert_eq!(product.name, Vec::<u8>::new());
    let counter = try_parse_counter(&vec![0u8; 20]).unwrap();
    assert!(!counter.is_initialized);
    assert_eq!(counter.counter, 0);
    let price = try_parse_price(&vec![0u8; 50]).unwrap();
    assert!(!price.is_initialized);
}

#[test]
fn short_buffer_parses_to_nothing() {
    assert!(try_parse_product(&vec![0u8; 10]).is_none());
    assert!(try_parse_counter(&vec![0u8; 3]).is_none());
    assert!(try_parse_price(&vec![0u8; 44]).is_none());
}

#[test]
fn unpack_decodes_each_command() {
    let mut data = vec![0u8];
    data.extend_from_slice(&42u64.to_le_bytes());
    data.extend_from_slice(&(3u32).to_le_bytes());
    data.extend_from_slice(b"abc");
    data.extend_from_slice(&9.99f64.to_bits().to_le_bytes());
    match ProductInstruction::unpack(&data).unwrap() {
        ProductInstruction::AddProduct { id, name, price } => {
            assert_eq!(id, 42);
            assert_eq!(name, b"abc".to_vec());
            assert_eq!(price, 9.99f64.to_bits());
        },
        _ => panic!("decoded the wrong command"),
    }
    let mut data = vec![1u8];
    data.extend_from_slice(&(3u32).to_le_bytes());
    data.extend_from_slice(b"xyz");
    match ProductInstruction::unpack(&data).unwrap() {
        ProductInstruction::UpdateProduct { name } => assert_eq!(name, b"xyz".to_vec()),
        _ => panic!("decoded the wrong command"),
    }
    let mut data = vec![2u8];
    data.extend_from_slice(&12.5f64.to_bits().to_le_bytes());
    match ProductInstruction::unpack(&data).unwrap() {
        ProductInstruction::UpdatePrice { price } => assert_eq!(price, 12.5f64.to_bits()),
        _ => panic!("decoded the wrong command"),
    }
}

#[test]
fn unpack_rejects_malformed_commands() {
    assert!(matches!(
        ProductInstruction::unpack(&Vec::new()),
        Err(ProductError::InvalidCommand)
    ));
    assert!(matches!(ProductInstruction::unpack(&vec![3u8]), Err(ProductError::InvalidCommand)));
    // truncated payload
    assert!(matches!(
        ProductInstruction::unpack(&vec![2u8, 1, 2, 3]),
        Err(ProductError::InvalidCommand)
    ));
    // trailing garbage
    let mut data = vec![2u8];
    data.extend_from_slice(&12.5f64.to_bits().to_le_bytes());
    data.push(0);
    assert!(matches!(ProductInstruction::unpack(&data), Err(ProductError::InvalidCommand)));
}

#[test]
fn derivation_is_deterministic_and_matches_the_host_scheme() {
    let owner = vec![1u8; 32];
    let program = vec![7u8; 32];
    let first = derive_product_address(&owner, 55, &program).unwrap();
    let second = derive_product_address(&owner, 55, &program).unwrap();
    assert_eq!(first, second);
    // the same derivation through the host primitive directly
    let pid = solana_program::pubkey::Pubkey::try_from(program.as_slice()).unwrap();
    let (expected, bump) = solana_program::pubkey::Pubkey::find_program_address(
        &[&owner, &55u64.to_be_bytes()],
        &pid,
    );
    assert_eq!(first.0, expected.to_bytes().to_vec());
    assert_eq!(first.1, bump);
    // the derived address is not one of the inputs handed back
    assert_ne!(first.0, owner);
    assert_ne!(first.0, program);
}

#[test]
fn price_positivity_follows_the_numeric_order() {
    assert!(is_price_positive(9.99f64.to_bits()));
    assert!(is_price_positive(f64::MIN_POSITIVE.to_bits()));
    assert!(is_price_positive(f64::INFINITY.to_bits()));
    assert!(!is_price_positive(0.0f64.to_bits()));
    assert!(!is_price_positive((-0.0f64).to_bits()));
    assert!(!is_price_positive((-9.99f64).to_bits()));
    assert!(!is_price_positive(f64::NAN.to_bits()));
    assert!(!is_price_positive(f64::NEG_INFINITY.to_bits()));
}
