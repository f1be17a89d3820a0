//! Cross-operation laws of the catalog, each proved from the operations'
//! outcome functions alone.

use vstd::prelude::*;

use crate::codec::{spec_write_prefix, zero_seq};
use crate::derive::{spec_product_address, spec_entry_address};
use crate::error::ProductError;
use crate::slot::SlotView;
use crate::processor::{spec_add_product, spec_add_price, spec_update_product};
use crate::state::{
    ProductRecordView, CounterRecordView, PriceRecordView, spec_parse_product, spec_parse_counter,
    spec_parse_price, spec_serialize_product, spec_serialize_counter, spec_serialize_price,
    spec_product_record_size, product_tag, counter_tag, price_tag, lemma_product_roundtrip,
    lemma_counter_roundtrip, lemma_price_roundtrip, lemma_parsed_counter_fits,
    lemma_parsed_product_fits, price_bits_positive, PRODUCT_SLOT_SIZE, COUNTER_RECORD_SIZE,
    PRICE_RECORD_SIZE,
};

verus! {

/// A successful CreateProduct leaves the price counter at exactly 1 and price
/// entry number 0 initialized — at the address derived from the product
/// address and 0, carrying the product back-reference and the creation price
/// — while the product record carries the signer, the id, the name and that
/// same price.
pub proof fn lemma_create_establishes_first_price(
    program_id: Seq<u8>,
    initializer: SlotView,
    product: SlotView,
    counter_slot: SlotView,
    entry_slot: SlotView,
    id: u64,
    name: Seq<u8>,
    price: u64,
    rent_product: u64,
    rent_counter: u64,
    rent_entry: u64,
    post: (SlotView, SlotView, SlotView, SlotView),
)
    requires
        initializer.wf(),
        product.wf(),
        spec_add_product(
            program_id,
            initializer,
            product,
            counter_slot,
            entry_slot,
            id,
            name,
            price,
            rent_product,
            rent_counter,
            rent_entry,
        ) == Ok::<(SlotView, SlotView, SlotView, SlotView), ProductError>(post),
    ensures
        spec_parse_counter(post.2.data) matches Some(c) && c.is_initialized && c.counter == 1,
        spec_parse_price(post.3.data) matches Some(e) && e.is_initialized && e.product
            == product.address && e.price == price,
        spec_parse_product(post.1.data) matches Some(r) && r.is_initialized && r.seller
            == initializer.address && r.id == id && r.name == name && r.price == price,
        spec_entry_address(product.address, 0, program_id) matches Some(ab) && ab.0
            == entry_slot.address,
{
    let rec = ProductRecordView {
        discriminator: product_tag(),
        is_initialized: true,
        seller: initializer.address,
        id: id,
        name: name,
        price: price,
    };
    let product1 = SlotView {
        lamports: rent_product,
        owner: program_id,
        data: spec_write_prefix(zero_seq(PRODUCT_SLOT_SIZE as int), spec_serialize_product(rec)),
        ..product
    };
    let crec = CounterRecordView {
        discriminator: counter_tag(),
        is_initialized: true,
        counter: 0,
    };
    let counter1 = SlotView {
        lamports: rent_counter,
        owner: program_id,
        data: spec_write_prefix(
            zero_seq(COUNTER_RECORD_SIZE as int),
            spec_serialize_counter(crec),
        ),
        ..counter_slot
    };
    assert(name.len() <= 936);
    lemma_product_roundtrip(
        rec,
        zero_seq(PRODUCT_SLOT_SIZE as int).subrange(
            spec_serialize_product(rec).len() as int,
            PRODUCT_SLOT_SIZE as int,
        ),
    );
    lemma_counter_roundtrip(
        crec,
        zero_seq(COUNTER_RECORD_SIZE as int).subrange(
            spec_serialize_counter(crec).len() as int,
            COUNTER_RECORD_SIZE as int,
        ),
    );
    let c2 = CounterRecordView { counter: 1u64, ..crec };
    lemma_counter_roundtrip(
        c2,
        counter1.data.subrange(
            spec_serialize_counter(c2).len() as int,
            counter1.data.len() as int,
        ),
    );
    let entry_rec = PriceRecordView {
        discriminator: price_tag(),
        is_initialized: true,
        product: product1.address,
        price: price,
    };
    lemma_price_roundtrip(
        entry_rec,
        zero_seq(PRICE_RECORD_SIZE as int).subrange(
            spec_serialize_price(entry_rec).len() as int,
            PRICE_RECORD_SIZE as int,
        ),
    );
    let rec2 = ProductRecordView { price: price, ..rec };
    lemma_product_roundtrip(
        rec2,
        product1.data.subrange(
            spec_serialize_product(rec2).len() as int,
            product1.data.len() as int,
        ),
    );
}

/// Creating the same (owner, id) pair twice fails the second time with
/// AlreadyInitialized: the first creation leaves the product slot in use, so
/// a second CreateProduct aimed at the slot it created — with its own signer,
/// well-formed inputs and fresh counter and entry slots — is refused at
/// allocation. A refused operation changes nothing, so the first creation's
/// records stay as they were.
pub proof fn lemma_second_create_already_initialized(
    program_id: Seq<u8>,
    initializer: SlotView,
    product: SlotView,
    counter_slot: SlotView,
    entry_slot: SlotView,
    id: u64,
    name: Seq<u8>,
    price: u64,
    rent_product: u64,
    rent_counter: u64,
    rent_entry: u64,
    post: (SlotView, SlotView, SlotView, SlotView),
    initializer2: SlotView,
    counter_slot2: SlotView,
    entry_slot2: SlotView,
    name2: Seq<u8>,
    price2: u64,
    rp2: u64,
    rc2: u64,
    re2: u64,
)
    requires
        initializer.wf(),
        spec_add_product(
            program_id,
            initializer,
            product,
            counter_slot,
            entry_slot,
            id,
            name,
            price,
            rent_product,
            rent_counter,
            rent_entry,
        ) == Ok::<(SlotView, SlotView, SlotView, SlotView), ProductError>(post),
        initializer2.is_signer,
        initializer2.address == initializer.address,
        name2.len() > 0,
        price_bits_positive(price2),
        spec_product_record_size(name2.len() as int) <= PRODUCT_SLOT_SIZE as int,
    ensures
        spec_add_product(
            program_id,
            initializer2,
            post.1,
            counter_slot2,
            entry_slot2,
            id,
            name2,
            price2,
            rp2,
            rc2,
            re2,
        ) == Err::<(SlotView, SlotView, SlotView, SlotView), ProductError>(
            ProductError::AlreadyInitialized,
        ),
{
    let rec = ProductRecordView {
        discriminator: product_tag(),
        is_initialized: true,
        seller: initializer.address,
        id: id,
        name: name,
        price: price,
    };
    let product1 = SlotView {
        lamports: rent_product,
        owner: program_id,
        data: spec_write_prefix(zero_seq(PRODUCT_SLOT_SIZE as int), spec_serialize_product(rec)),
        ..product
    };
    assert(name.len() <= 936);
    lemma_product_roundtrip(
        rec,
        zero_seq(PRODUCT_SLOT_SIZE as int).subrange(
            spec_serialize_product(rec).len() as int,
            PRODUCT_SLOT_SIZE as int,
        ),
    );
    let rec2 = ProductRecordView { price: price, ..rec };
    assert(post.1.address == product.address);
    assert(post.1.data == spec_write_prefix(product1.data, spec_serialize_product(rec2)));
    assert(post.1.data.len() >= 4);
    assert(post.1.in_use());
}

/// One step of the append-only price history: with the counter reading `c`, a
/// successful RecordPrice writes price entry number `c` — at the address
/// derived from the product address and `c` — and leaves the counter at
/// `c + 1`; the product record keeps its owner, id and name, its price
/// becoming the recorded one, and no slot changes its address. Creation
/// leaves the counter at 1 with entry 0 written, and every further call
/// derives its entry from the counter it reads, so `n` calls after creation
/// read counter `n + 1`, the entries having been written at the derived
/// addresses of 0 through `n` in order.
#[verifier::rlimit(80)]
pub proof fn lemma_record_price_step(
    program_id: Seq<u8>,
    owner: SlotView,
    product: SlotView,
    counter_slot: SlotView,
    entry_slot: SlotView,
    price: u64,
    rent_entry: u64,
    c0: CounterRecordView,
    r0: ProductRecordView,
    post: (SlotView, SlotView, SlotView, SlotView),
)
    requires
        product.wf(),
        spec_parse_counter(counter_slot.data) == Some(c0),
        c0.counter < u64::MAX,
        spec_parse_product(product.data) == Some(r0),
        spec_add_price(program_id, owner, product, counter_slot, entry_slot, price, rent_entry)
            == Ok::<(SlotView, SlotView, SlotView, SlotView), ProductError>(post),
    ensures
        spec_entry_address(product.address, c0.counter, program_id) matches Some(ab) && ab.0
            == entry_slot.address,
        spec_parse_counter(post.2.data) matches Some(c1) && c1.counter == c0.counter + 1,
        spec_parse_price(post.3.data) matches Some(e) && e.is_initialized && e.product
            == product.address && e.price == price,
        spec_parse_product(post.1.data) matches Some(r1) && r1.is_initialized && r1.seller
            == r0.seller && r1.id == r0.id && r1.name == r0.name && r1.price == price,
        post.1.address == product.address && post.2.address == counter_slot.address
            && post.3.address == entry_slot.address,
        post.1.owner == product.owner,
{
    lemma_parsed_counter_fits(counter_slot.data, c0);
    lemma_parsed_product_fits(product.data, r0);
    let c2 = CounterRecordView { counter: (c0.counter + 1) as u64, ..c0 };
    lemma_counter_roundtrip(
        c2,
        counter_slot.data.subrange(
            spec_serialize_counter(c2).len() as int,
            counter_slot.data.len() as int,
        ),
    );
    let entry_rec = PriceRecordView {
        discriminator: price_tag(),
        is_initialized: true,
        product: product.address,
        price: price,
    };
    lemma_price_roundtrip(
        entry_rec,
        zero_seq(PRICE_RECORD_SIZE as int).subrange(
            spec_serialize_price(entry_rec).len() as int,
            PRICE_RECORD_SIZE as int,
        ),
    );
    let r2 = ProductRecordView { price: price, ..r0 };
    lemma_product_roundtrip(
        r2,
        product.data.subrange(
            spec_serialize_product(r2).len() as int,
            product.data.len() as int,
        ),
    );
}

/// RenameProduct by anyone but the recorded owner fails and alters nothing:
/// an unsigned request fails with MissingSignature, and a signed request
/// whose identity does not derive the product slot's address (for the stored
/// id) fails with AddressMismatch. By the host scheme's uniqueness guarantee
/// the address derived for any identity other than the recorded owner
/// differs from the product's, which is the hypothesis taken here; a refused
/// rename leaves the slot, and so the stored name, unchanged.
pub proof fn lemma_rename_by_non_owner_fails(
    program_id: Seq<u8>,
    seller: SlotView,
    product: SlotView,
    name: Seq<u8>,
    rec: ProductRecordView,
)
    requires
        spec_parse_product(product.data) == Some(rec),
        product.owner == program_id,
        !seller.is_signer || !(spec_product_address(seller.address, rec.id, program_id)
            matches Some(ab) && ab.0 == product.address),
    ensures
        spec_update_product(program_id, seller, product, name) == Err::<SlotView, ProductError>(
            if !seller.is_signer {
                ProductError::MissingSignature
            } else {
                ProductError::AddressMismatch
            },
        ),
{
}

/// The append-only history, `n` steps at a time: from a counter reading `c`,
/// after `n` successful RecordPrice outcomes — each threading the product and
/// counter slots of the one before, with any funding owners, prices and entry
/// slots — the counter reads `c + n`, and step `i` placed its entry at the
/// address derived from the product address and `c + i`. The entry addresses
/// of the history are thus the derived sequence of `c` through `c + n - 1`,
/// each derived from a counter value no later step repeats. Creation leaves
/// the counter at 1 having placed entry 0, so `n` calls on a created product
/// leave it at `n + 1` with entries 0 through `n`.
pub proof fn lemma_price_history_counts(
    program_id: Seq<u8>,
    owners: Seq<SlotView>,
    products: Seq<SlotView>,
    counters: Seq<SlotView>,
    entries: Seq<SlotView>,
    prices: Seq<u64>,
    rents: Seq<u64>,
    c0: CounterRecordView,
    n: int,
)
    requires
        0 <= n,
        products.len() > n,
        counters.len() > n,
        owners.len() >= n,
        entries.len() >= n,
        prices.len() >= n,
        rents.len() >= n,
        products[0].wf(),
        spec_parse_counter(counters[0].data) == Some(c0),
        spec_parse_product(products[0].data) is Some,
        c0.counter + n <= u64::MAX,
        forall|i: int| 0 <= i < n ==> (#[trigger] spec_add_price(
            program_id,
            owners[i],
            products[i],
            counters[i],
            entries[i],
            prices[i],
            rents[i],
        ) matches Ok(t) && t.1 == products[i + 1] && t.2 == counters[i + 1]),
    ensures
        spec_parse_counter(counters[n].data) matches Some(cn) && cn.counter == c0.counter + n,
        spec_parse_product(products[n].data) is Some,
        products[n].wf(),
        products[n].address == products[0].address,
        products[n].owner == products[0].owner,
        forall|i: int| 0 <= i < n ==> (#[trigger] spec_entry_address(
            products[0].address,
            (c0.counter + i) as u64,
            program_id,
        ) matches Some(ab) && ab.0 == entries[i].address),
    decreases n,
{
    if n > 0 {
        lemma_price_history_counts(
            program_id,
            owners,
            products,
            counters,
            entries,
            prices,
            rents,
            c0,
            n - 1,
        );
        let cprev = spec_parse_counter(counters[n - 1].data)->Some_0;
        let rprev = spec_parse_product(products[n - 1].data)->Some_0;
        let step = spec_add_price(
            program_id,
            owners[n - 1],
            products[n - 1],
            counters[n - 1],
            entries[n - 1],
            prices[n - 1],
            rents[n - 1],
        );
        lemma_record_price_step(
            program_id,
            owners[n - 1],
            products[n - 1],
            counters[n - 1],
            entries[n - 1],
            prices[n - 1],
            rents[n - 1],
            cprev,
            rprev,
            step->Ok_0,
        );
    }
}

} // verus!
