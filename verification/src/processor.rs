//! The command processor: the three operations over storage slots. Every
//! operation validates eagerly and mutates nothing until all its checks have
//! passed; on an error the supplied slots are exactly as they were, so an
//! invocation is all-or-nothing.

use vstd::prelude::*;

use vstd::pervasive::VecAdditionalExecFns;

use crate::codec::{spec_write_prefix, zero_seq};
use crate::instruction::{ProductInstruction, InstructionView, spec_unpack};
use crate::derive::{
    spec_product_address, spec_counter_address, spec_entry_address, derive_product_address,
    derive_counter_address, derive_entry_address,
};
use crate::error::ProductError;
use crate::slot::{Slot, SlotView, allocate_slot, bytes_eq, clone_bytes, clone_slot, write_prefix};
use crate::state::{
    ProductAccountState, ProductPriceCounter, ProductPrice, ProductRecordView, CounterRecordView,
    PriceRecordView, spec_parse_product, spec_parse_counter,
    spec_serialize_product, spec_serialize_counter, spec_serialize_price,
    spec_product_record_size, product_tag, counter_tag, price_tag, product_tag_vec,
    counter_tag_vec, price_tag_vec, try_parse_product, try_parse_counter, try_parse_price,
    serialize_product, serialize_counter, serialize_price, lemma_parsed_product_fits,
    lemma_parsed_counter_fits, lemma_product_serialized_size, lemma_counter_serialized_size,
    lemma_price_serialized_size, lemma_product_roundtrip, lemma_counter_roundtrip,
    lemma_zeroed_product_uninitialized, lemma_zeroed_counter_uninitialized,
    lemma_zeroed_price_uninitialized, price_bits_positive, is_price_positive, PRODUCT_SLOT_SIZE,
    COUNTER_RECORD_SIZE, PRICE_RECORD_SIZE,
};

verus! {

/// Outcome of RenameProduct on the given pre-states: the product slot's
/// post-state, or the error and no change. The slot must already be owned by
/// the program and hold a parseable product record; the signer must be the
/// recorded owner (witnessed by the slot sitting at the address derived from
/// the signer and the stored id); the record must be initialized; the new
/// name must be non-empty and keep the record within the product slot budget.
/// Only the name changes; owner, id and price are untouched.
pub open spec fn spec_update_product(
    program_id: Seq<u8>,
    seller: SlotView,
    product: SlotView,
    name: Seq<u8>,
) -> Result<SlotView, ProductError>
    recommends
        spec_parse_product(product.data) is Some,
{
    let rec = spec_parse_product(product.data)->Some_0;
    if product.owner != program_id {
        Err(ProductError::IllegalOwner)
    } else if !seller.is_signer {
        Err(ProductError::MissingSignature)
    } else if !(spec_product_address(seller.address, rec.id, program_id) matches Some(ab) && ab.0
        == product.address) {
        Err(ProductError::AddressMismatch)
    } else if !rec.is_initialized {
        Err(ProductError::UninitializedAccount)
    } else if name.len() == 0 || spec_product_record_size(name.len() as int) > PRODUCT_SLOT_SIZE
        as int {
        Err(ProductError::InvalidInput)
    } else {
        Ok(
            SlotView {
                data: spec_write_prefix(
                    product.data,
                    spec_serialize_product(ProductRecordView { name: name, ..rec }),
                ),
                ..product
            },
        )
    }
}

/// RenameProduct. Overwrites the stored name with `name` when every check of
/// `spec_update_product` passes, and otherwise returns its error having
/// changed nothing. The product slot must hold a parseable, product-tagged
/// record in a buffer of at least the product slot budget, which is how
/// CreateProduct leaves it.
pub fn update_product(
    program_id: &Vec<u8>,
    seller: &Slot,
    pda_product: &mut Slot,
    name: Vec<u8>,
) -> (result: Result<(), ProductError>)
    requires
        program_id@.len() == 32,
        seller@.wf(),
        old(pda_product)@.wf(),
        spec_parse_product(old(pda_product)@.data) matches Some(r) && (r.is_initialized
            ==> r.discriminator == product_tag()),
        old(pda_product)@.data.len() >= PRODUCT_SLOT_SIZE,
    ensures
        match result {
            Ok(()) => spec_update_product(program_id@, seller@, old(pda_product)@, name@)
                == Ok::<SlotView, ProductError>(final(pda_product)@),
            Err(e) => spec_update_product(program_id@, seller@, old(pda_product)@, name@) == Err::<SlotView, ProductError>(e)
                && final(pda_product)@ == old(pda_product)@,
        },
{
    if !bytes_eq(&pda_product.owner, program_id) {
        return Err(ProductError::IllegalOwner);
    }
    if !seller.is_signer {
        return Err(ProductError::MissingSignature);
    }
    let parsed = try_parse_product(&pda_product.data);
    let mut rec = match parsed {
        Some(r) => r,
        None => {
            proof {
                assert(false);
            }
            return Err(ProductError::UninitializedAccount);
        },
    };
    let derived = derive_product_address(&seller.address, rec.id, program_id);
    let addr_ok: bool = match &derived {
        Some(ab) => bytes_eq(&ab.0, &pda_product.address),
        None => false,
    };
    if !addr_ok {
        return Err(ProductError::AddressMismatch);
    }
    if !rec.is_initialized {
        return Err(ProductError::UninitializedAccount);
    }
    if name.len() == 0 {
        return Err(ProductError::InvalidInput);
    }
    if name.len() > PRODUCT_SLOT_SIZE - 64 {
        return Err(ProductError::InvalidInput);
    }
    proof {
        lemma_parsed_product_fits(pda_product@.data, rec@);
    }
    rec.name = name;
    let bytes = serialize_product(&rec);
    write_prefix(&mut pda_product.data, &bytes);
    Ok(())
}

/// Outcome of RecordPrice on the given pre-states: the post-states of the
/// funding owner, the product slot, the counter slot and the new entry slot,
/// or the error and no change. Reading the current counter value `c`, the
/// entry slot must sit at the address derived from the product address and
/// `c`, must not be in use, and must be fundable; the product slot must sit
/// at the address derived from the funding owner and the stored id, hold an
/// initialized record, and the price bits must be positive. Then entry `c` is
/// written with the product back-reference and the price, the counter becomes
/// `c + 1`, and the product record's price is overwritten.
pub open spec fn spec_add_price(
    program_id: Seq<u8>,
    owner: SlotView,
    product: SlotView,
    counter_slot: SlotView,
    entry_slot: SlotView,
    price: u64,
    rent_entry: u64,
) -> Result<(SlotView, SlotView, SlotView, SlotView), ProductError>
    recommends
        spec_parse_counter(counter_slot.data) is Some,
        spec_parse_product(product.data) is Some,
{
    let c = spec_parse_counter(counter_slot.data)->Some_0;
    let rec = spec_parse_product(product.data)->Some_0;
    if !(spec_entry_address(product.address, c.counter, program_id) matches Some(ab) && ab.0
        == entry_slot.address) {
        Err(ProductError::AddressMismatch)
    } else if entry_slot.in_use() {
        Err(ProductError::AlreadyInitialized)
    } else if owner.lamports < rent_entry {
        Err(ProductError::InsufficientFunds)
    } else if !(spec_product_address(owner.address, rec.id, program_id) matches Some(ab) && ab.0
        == product.address) {
        Err(ProductError::AddressMismatch)
    } else if !rec.is_initialized {
        Err(ProductError::UninitializedAccount)
    } else if !price_bits_positive(price) {
        Err(ProductError::InvalidInput)
    } else {
        let owner2 = SlotView { lamports: (owner.lamports - rent_entry) as u64, ..owner };
        let entry_rec = PriceRecordView {
            discriminator: price_tag(),
            is_initialized: true,
            product: product.address,
            price: price,
        };
        let entry2 = SlotView {
            lamports: rent_entry,
            owner: program_id,
            data: spec_write_prefix(
                zero_seq(PRICE_RECORD_SIZE as int),
                spec_serialize_price(entry_rec),
            ),
            ..entry_slot
        };
        let c2 = CounterRecordView { counter: (c.counter + 1) as u64, ..c };
        let counter2 = SlotView {
            data: spec_write_prefix(counter_slot.data, spec_serialize_counter(c2)),
            ..counter_slot
        };
        let rec2 = ProductRecordView { price: price, ..rec };
        let product2 = SlotView {
            data: spec_write_prefix(product.data, spec_serialize_product(rec2)),
            ..product
        };
        Ok((owner2, product2, counter2, entry2))
    }
}

/// RecordPrice. Appends price entry number `c` (the current counter value),
/// advances the counter to `c + 1`, and overwrites the product record's
/// price, exactly as `spec_add_price` says; on an error nothing is changed.
/// The counter and product slots must hold parseable records (how
/// CreateProduct leaves them), and the counter must not be at its maximum.
pub fn add_price(
    program_id: &Vec<u8>,
    product_owner: &mut Slot,
    pda_product: &mut Slot,
    pda_counter: &mut Slot,
    pda_price: &mut Slot,
    price: u64,
    rent_entry: u64,
) -> (result: Result<(), ProductError>)
    requires
        program_id@.len() == 32,
        old(product_owner)@.wf(),
        old(pda_product)@.wf(),
        old(pda_counter)@.wf(),
        old(pda_price)@.wf(),
        spec_parse_counter(old(pda_counter)@.data) matches Some(c) && c.counter < u64::MAX,
        spec_parse_product(old(pda_product)@.data) is Some,
    ensures
        match result {
            Ok(()) => spec_add_price(
                program_id@,
                old(product_owner)@,
                old(pda_product)@,
                old(pda_counter)@,
                old(pda_price)@,
                price,
                rent_entry,
            ) == Ok::<(SlotView, SlotView, SlotView, SlotView), ProductError>(
                (
                    final(product_owner)@,
                    final(pda_product)@,
                    final(pda_counter)@,
                    final(pda_price)@,
                ),
            ),
            Err(e) => spec_add_price(
                program_id@,
                old(product_owner)@,
                old(pda_product)@,
                old(pda_counter)@,
                old(pda_price)@,
                price,
                rent_entry,
            ) == Err::<(SlotView, SlotView, SlotView, SlotView), ProductError>(e)
                && final(product_owner)@ == old(product_owner)@
                && final(pda_product)@ == old(pda_product)@
                && final(pda_counter)@ == old(pda_counter)@
                && final(pda_price)@ == old(pda_price)@,
        },
{
    let mut counter_rec = match try_parse_counter(&pda_counter.data) {
        Some(r) => r,
        None => {
            proof {
                assert(false);
            }
            return Err(ProductError::InvalidCommand);
        },
    };
    let derived_entry = derive_entry_address(&pda_product.address, counter_rec.counter, program_id);
    let entry_addr: Vec<u8> = match derived_entry {
        Some(ab) => ab.0,
        None => {
            return Err(ProductError::AddressMismatch);
        },
    };
    if !bytes_eq(&entry_addr, &pda_price.address) {
        return Err(ProductError::AddressMismatch);
    }
    let mut owner_l = clone_slot(product_owner);
    let mut entry_l = clone_slot(pda_price);
    match allocate_slot(&mut owner_l, &mut entry_l, program_id, &entry_addr, PRICE_RECORD_SIZE,
        rent_entry) {
        Ok(()) => {},
        Err(e) => {
            return Err(e);
        },
    }
    proof {
        lemma_zeroed_price_uninitialized(PRICE_RECORD_SIZE as int);
    }
    let entry_parsed = try_parse_price(&entry_l.data);
    if let Some(p) = entry_parsed {
        if p.is_initialized {
            return Err(ProductError::AlreadyInitialized);
        }
    }
    let entry_rec = ProductPrice {
        discriminator: price_tag_vec(),
        is_initialized: true,
        product: clone_bytes(&pda_product.address),
        price: price,
    };
    let entry_bytes = serialize_price(&entry_rec);
    proof {
        lemma_price_serialized_size(entry_rec@);
    }
    write_prefix(&mut entry_l.data, &entry_bytes);
    let mut counter_l = clone_slot(pda_counter);
    proof {
        lemma_parsed_counter_fits(counter_l@.data, counter_rec@);
    }
    counter_rec.counter = counter_rec.counter + 1;
    let counter_bytes = serialize_counter(&counter_rec);
    write_prefix(&mut counter_l.data, &counter_bytes);
    let mut product_l = clone_slot(pda_product);
    let mut rec = match try_parse_product(&product_l.data) {
        Some(r) => r,
        None => {
            proof {
                assert(false);
            }
            return Err(ProductError::InvalidCommand);
        },
    };
    let derived_prod = derive_product_address(&product_owner.address, rec.id, program_id);
    let addr_ok: bool = match &derived_prod {
        Some(ab) => bytes_eq(&ab.0, &pda_product.address),
        None => false,
    };
    if !addr_ok {
        return Err(ProductError::AddressMismatch);
    }
    if !rec.is_initialized {
        return Err(ProductError::UninitializedAccount);
    }
    if !is_price_positive(price) {
        return Err(ProductError::InvalidInput);
    }
    proof {
        lemma_parsed_product_fits(product_l@.data, rec@);
    }
    rec.price = price;
    let product_bytes = serialize_product(&rec);
    write_prefix(&mut product_l.data, &product_bytes);
    *product_owner = owner_l;
    *pda_product = product_l;
    *pda_counter = counter_l;
    *pda_price = entry_l;
    Ok(())
}

/// Outcome of CreateProduct on the given pre-states. The initiating identity
/// must have signed; the product slot must sit at the address derived from
/// (signer, id); the name must be non-empty and fit the slot budget and the
/// price bits be positive; the product slot, and then the counter slot at the
/// address derived from (product address, "price"), are allocated and
/// written (owner = signer, the given id, name and price; counter = 0); and
/// the first price entry is then recorded through the RecordPrice outcome,
/// which leaves the counter at 1. On any error nothing changes.
pub open spec fn spec_add_product(
    program_id: Seq<u8>,
    initializer: SlotView,
    product: SlotView,
    counter_slot: SlotView,
    entry_slot: SlotView,
    id: u64,
    name: Seq<u8>,
    price: u64,
    rent_product: u64,
    rent_counter: u64,
    rent_entry: u64,
) -> Result<(SlotView, SlotView, SlotView, SlotView), ProductError> {
    if !initializer.is_signer {
        Err(ProductError::MissingSignature)
    } else if !(spec_product_address(initializer.address, id, program_id) matches Some(ab) && ab.0
        == product.address) {
        Err(ProductError::AddressMismatch)
    } else if name.len() == 0 || !price_bits_positive(price) {
        Err(ProductError::InvalidInput)
    } else if spec_product_record_size(name.len() as int) > PRODUCT_SLOT_SIZE as int {
        Err(ProductError::InvalidInput)
    } else if product.in_use() {
        Err(ProductError::AlreadyInitialized)
    } else if initializer.lamports < rent_product {
        Err(ProductError::InsufficientFunds)
    } else {
        let init1 = SlotView {
            lamports: (initializer.lamports - rent_product) as u64,
            ..initializer
        };
        let rec = ProductRecordView {
            discriminator: product_tag(),
            is_initialized: true,
            seller: initializer.address,
            id: id,
            name: name,
            price: price,
        };
        let product1 = SlotView {
            lamports: rent_product,
            owner: program_id,
            data: spec_write_prefix(
                zero_seq(PRODUCT_SLOT_SIZE as int),
                spec_serialize_product(rec),
            ),
            ..product
        };
        if !(spec_counter_address(product.address, program_id) matches Some(cb) && cb.0
            == counter_slot.address) {
            Err(ProductError::AddressMismatch)
        } else if counter_slot.in_use() {
            Err(ProductError::AlreadyInitialized)
        } else if init1.lamports < rent_counter {
            Err(ProductError::InsufficientFunds)
        } else {
            let init2 = SlotView { lamports: (init1.lamports - rent_counter) as u64, ..init1 };
            let crec = CounterRecordView {
                discriminator: counter_tag(),
                is_initialized: true,
                counter: 0,
            };
            let counter1 = SlotView {
                lamports: rent_counter,
                owner: program_id,
                data: spec_write_prefix(
                    zero_seq(COUNTER_RECORD_SIZE as int),
                    spec_serialize_counter(crec),
                ),
                ..counter_slot
            };
            spec_add_price(program_id, init2, product1, counter1, entry_slot, price, rent_entry)
        }
    }
}

/// CreateProduct. Allocates and writes the product record, its price counter,
/// and — through RecordPrice on the same invocation — price entry number 0,
/// leaving the counter at 1, exactly as `spec_add_product` says; on an error
/// nothing is changed, so creation is all-or-nothing.
#[verifier::rlimit(80)]
pub fn add_product(
    program_id: &Vec<u8>,
    initializer: &mut Slot,
    pda_product: &mut Slot,
    pda_counter: &mut Slot,
    pda_price: &mut Slot,
    id: u64,
    name: Vec<u8>,
    price: u64,
    rent_product: u64,
    rent_counter: u64,
    rent_entry: u64,
) -> (result: Result<(), ProductError>)
    requires
        program_id@.len() == 32,
        old(initializer)@.wf(),
        old(pda_product)@.wf(),
        old(pda_counter)@.wf(),
        old(pda_price)@.wf(),
    ensures
        match result {
            Ok(()) => spec_add_product(
                program_id@,
                old(initializer)@,
                old(pda_product)@,
                old(pda_counter)@,
                old(pda_price)@,
                id,
                name@,
                price,
                rent_product,
                rent_counter,
                rent_entry,
            ) == Ok::<(SlotView, SlotView, SlotView, SlotView), ProductError>(
                (
                    final(initializer)@,
                    final(pda_product)@,
                    final(pda_counter)@,
                    final(pda_price)@,
                ),
            ),
            Err(e) => spec_add_product(
                program_id@,
                old(initializer)@,
                old(pda_product)@,
                old(pda_counter)@,
                old(pda_price)@,
                id,
                name@,
                price,
                rent_product,
                rent_counter,
                rent_entry,
            ) == Err::<(SlotView, SlotView, SlotView, SlotView), ProductError>(e)
                && final(initializer)@ == old(initializer)@
                && final(pda_product)@ == old(pda_product)@
                && final(pda_counter)@ == old(pda_counter)@
                && final(pda_price)@ == old(pda_price)@,
        },
{
    if !initializer.is_signer {
        return Err(ProductError::MissingSignature);
    }
    let derived = derive_product_address(&initializer.address, id, program_id);
    let prod_addr: Vec<u8> = match derived {
        Some(ab) => ab.0,
        None => {
            return Err(ProductError::AddressMismatch);
        },
    };
    if !bytes_eq(&prod_addr, &pda_product.address) {
        return Err(ProductError::AddressMismatch);
    }
    if name.len() == 0 || !is_price_positive(price) {
        return Err(ProductError::InvalidInput);
    }
    if name.len() > PRODUCT_SLOT_SIZE - 64 {
        return Err(ProductError::InvalidInput);
    }
    let mut init_l = clone_slot(initializer);
    let mut product_l = clone_slot(pda_product);
    match allocate_slot(&mut init_l, &mut product_l, program_id, &prod_addr, PRODUCT_SLOT_SIZE,
        rent_product) {
        Ok(()) => {},
        Err(e) => {
            return Err(e);
        },
    }
    proof {
        lemma_zeroed_product_uninitialized(PRODUCT_SLOT_SIZE as int);
    }
    let product_parsed = try_parse_product(&product_l.data);
    if let Some(p) = product_parsed {
        if p.is_initialized {
            return Err(ProductError::AlreadyInitialized);
        }
    }
    let rec = ProductAccountState {
        discriminator: product_tag_vec(),
        is_initialized: true,
        seller: clone_bytes(&initializer.address),
        id: id,
        name: name,
        price: price,
    };
    let rec_bytes = serialize_product(&rec);
    proof {
        lemma_product_serialized_size(rec@);
    }
    write_prefix(&mut product_l.data, &rec_bytes);
    let derived_counter = derive_counter_address(&prod_addr, program_id);
    let counter_addr: Vec<u8> = match derived_counter {
        Some(ab) => ab.0,
        None => {
            return Err(ProductError::AddressMismatch);
        },
    };
    if !bytes_eq(&counter_addr, &pda_counter.address) {
        return Err(ProductError::AddressMismatch);
    }
    let mut counter_l = clone_slot(pda_counter);
    match allocate_slot(&mut init_l, &mut counter_l, program_id, &counter_addr,
        COUNTER_RECORD_SIZE, rent_counter) {
        Ok(()) => {},
        Err(e) => {
            return Err(e);
        },
    }
    proof {
        lemma_zeroed_counter_uninitialized(COUNTER_RECORD_SIZE as int);
    }
    let counter_parsed = try_parse_counter(&counter_l.data);
    if let Some(cp) = counter_parsed {
        if cp.is_initialized {
            return Err(ProductError::AlreadyInitialized);
        }
    }
    let crec = ProductPriceCounter {
        discriminator: counter_tag_vec(),
        is_initialized: true,
        counter: 0,
    };
    let crec_bytes = serialize_counter(&crec);
    proof {
        lemma_counter_serialized_size(crec@);
    }
    write_prefix(&mut counter_l.data, &crec_bytes);
    let mut entry_l = clone_slot(pda_price);
    proof {
        lemma_counter_roundtrip(
            crec@,
            zero_seq(COUNTER_RECORD_SIZE as int).subrange(
                spec_serialize_counter(crec@).len() as int,
                COUNTER_RECORD_SIZE as int,
            ),
        );
        lemma_product_roundtrip(
            rec@,
            zero_seq(PRODUCT_SLOT_SIZE as int).subrange(
                spec_serialize_product(rec@).len() as int,
                PRODUCT_SLOT_SIZE as int,
            ),
        );
    }
    match add_price(program_id, &mut init_l, &mut product_l, &mut counter_l, &mut entry_l, price,
        rent_entry) {
        Ok(()) => {},
        Err(e) => {
            return Err(e);
        },
    }
    *initializer = init_l;
    *pda_product = product_l;
    *pda_counter = counter_l;
    *pda_price = entry_l;
    Ok(())
}

/// The slot images of a sequence of slots.
pub open spec fn slot_views(s: Seq<Slot>) -> Seq<SlotView> {
    s.map_values(|x: Slot| x@)
}

/// Outcome of one invocation: the command `data` decodes to is dispatched to
/// its operation, which consumes the supplied slots positionally —
/// CreateProduct and RecordPrice read [payer, product, counter, entry,
/// allocation-service], RenameProduct reads [signer, product] — and the
/// touched slots are replaced by the operation's post-states. Undecodable
/// bytes are InvalidCommand; too few slots for the selected command is
/// NotEnoughSlots; on any error the slots are unchanged.
pub open spec fn spec_process_instruction(
    program_id: Seq<u8>,
    accounts: Seq<SlotView>,
    data: Seq<u8>,
    rent_product: u64,
    rent_counter: u64,
    rent_entry: u64,
) -> Result<Seq<SlotView>, ProductError> {
    match spec_unpack(data) {
        None => Err(ProductError::InvalidCommand),
        Some(InstructionView::AddProduct { id, name, price }) => {
            if accounts.len() < 5 {
                Err(ProductError::NotEnoughSlots)
            } else {
                match spec_add_product(
                    program_id,
                    accounts[0],
                    accounts[1],
                    accounts[2],
                    accounts[3],
                    id,
                    name,
                    price,
                    rent_product,
                    rent_counter,
                    rent_entry,
                ) {
                    Ok(post) => Ok(
                        accounts.update(0, post.0).update(1, post.1).update(2, post.2).update(
                            3,
                            post.3,
                        ),
                    ),
                    Err(e) => Err(e),
                }
            }
        },
        Some(InstructionView::UpdateProduct { name }) => {
            if accounts.len() < 2 {
                Err(ProductError::NotEnoughSlots)
            } else {
                match spec_update_product(program_id, accounts[0], accounts[1], name) {
                    Ok(post) => Ok(accounts.update(1, post)),
                    Err(e) => Err(e),
                }
            }
        },
        Some(InstructionView::UpdatePrice { price }) => {
            if accounts.len() < 5 {
                Err(ProductError::NotEnoughSlots)
            } else {
                match spec_add_price(
                    program_id,
                    accounts[0],
                    accounts[1],
                    accounts[2],
                    accounts[3],
                    price,
                    rent_entry,
                ) {
                    Ok(post) => Ok(
                        accounts.update(0, post.0).update(1, post.1).update(2, post.2).update(
                            3,
                            post.3,
                        ),
                    ),
                    Err(e) => Err(e),
                }
            }
        },
    }
}

/// Decodes `instruction_data` and runs the selected operation on the supplied
/// slots, as `spec_process_instruction` says. The rent arguments are the
/// host's current minimum balances for a product slot, a counter slot and a
/// price-entry slot. The slot-content preconditions of the operations are
/// carried over here for the slots the decoded command consumes, exactly as
/// each operation states them.
pub fn process_instruction(
    program_id: &Vec<u8>,
    accounts: &mut Vec<Slot>,
    instruction_data: &Vec<u8>,
    rent_product: u64,
    rent_counter: u64,
    rent_entry: u64,
) -> (result: Result<(), ProductError>)
    requires
        program_id@.len() == 32,
        forall|i: int| 0 <= i < old(accounts)@.len() ==> (#[trigger] old(accounts)@[i])@.wf(),
        (spec_unpack(instruction_data@) matches Some(InstructionView::UpdateProduct { name })
            && old(accounts)@.len() >= 2) ==> ((spec_parse_product(old(accounts)@[1]@.data)
            matches Some(r) && (r.is_initialized ==> r.discriminator == product_tag()))
            && old(accounts)@[1]@.data.len() >= PRODUCT_SLOT_SIZE),
        (spec_unpack(instruction_data@) matches Some(InstructionView::UpdatePrice { price })
            && old(accounts)@.len() >= 5) ==> ((spec_parse_counter(old(accounts)@[2]@.data)
            matches Some(c) && c.counter < u64::MAX) && spec_parse_product(
            old(accounts)@[1]@.data,
        ) is Some),
    ensures
        match result {
            Ok(()) => spec_process_instruction(
                program_id@,
                slot_views(old(accounts)@),
                instruction_data@,
                rent_product,
                rent_counter,
                rent_entry,
            ) == Ok::<Seq<SlotView>, ProductError>(slot_views(final(accounts)@)),
            Err(e) => spec_process_instruction(
                program_id@,
                slot_views(old(accounts)@),
                instruction_data@,
                rent_product,
                rent_counter,
                rent_entry,
            ) == Err::<Seq<SlotView>, ProductError>(e) && final(accounts)@ == old(accounts)@,
        },
{
    let instruction = match ProductInstruction::unpack(instruction_data) {
        Ok(i) => i,
        Err(e) => {
            return Err(e);
        },
    };
    match instruction {
        ProductInstruction::AddProduct { id, name, price } => {
            if accounts.len() < 5 {
                return Err(ProductError::NotEnoughSlots);
            }
            let mut a0 = clone_slot(&accounts[0]);
            let mut a1 = clone_slot(&accounts[1]);
            let mut a2 = clone_slot(&accounts[2]);
            let mut a3 = clone_slot(&accounts[3]);
            match add_product(program_id, &mut a0, &mut a1, &mut a2, &mut a3, id, name, price,
                rent_product, rent_counter, rent_entry) {
                Ok(()) => {
                    accounts.set(0, a0);
                    accounts.set(1, a1);
                    accounts.set(2, a2);
                    accounts.set(3, a3);
                    proof {
                        assert(slot_views(accounts@) =~= slot_views(old(accounts)@).update(
                            0,
                            a0@,
                        ).update(1, a1@).update(2, a2@).update(3, a3@));
                    }
                    Ok(())
                },
                Err(e) => Err(e),
            }
        },
        ProductInstruction::UpdateProduct { name } => {
            if accounts.len() < 2 {
                return Err(ProductError::NotEnoughSlots);
            }
            let a0 = clone_slot(&accounts[0]);
            let mut a1 = clone_slot(&accounts[1]);
            match update_product(program_id, &a0, &mut a1, name) {
                Ok(()) => {
                    accounts.set(1, a1);
                    proof {
                        assert(slot_views(accounts@) =~= slot_views(old(accounts)@).update(
                            1,
                            a1@,
                        ));
                    }
                    Ok(())
                },
                Err(e) => Err(e),
            }
        },
        ProductInstruction::UpdatePrice { price } => {
            if accounts.len() < 5 {
                return Err(ProductError::NotEnoughSlots);
            }
            let mut a0 = clone_slot(&accounts[0]);
            let mut a1 = clone_slot(&accounts[1]);
            let mut a2 = clone_slot(&accounts[2]);
            let mut a3 = clone_slot(&accounts[3]);
            match add_price(program_id, &mut a0, &mut a1, &mut a2, &mut a3, price, rent_entry) {
                Ok(()) => {
                    accounts.set(0, a0);
                    accounts.set(1, a1);
                    accounts.set(2, a2);
                    accounts.set(3, a3);
                    proof {
                        assert(slot_views(accounts@) =~= slot_views(old(accounts)@).update(
                            0,
                            a0@,
                        ).update(1, a1@).update(2, a2@).update(3, a3@));
                    }
                    Ok(())
                },
                Err(e) => Err(e),
            }
        },
    }
}

} // verus!
