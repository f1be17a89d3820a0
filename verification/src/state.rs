//! The record schema: three record kinds in a fixed, self-describing binary
//! layout — a length-prefixed kind tag, a one-byte initialization flag, and
//! fixed-width numeric and address fields. A freshly allocated (all-zero)
//! buffer parses as an uninitialized record, which is how "allocated but not
//! yet written" is told apart from "previously initialized".
//!
//! Prices are carried as the raw bit image of an IEEE 754 binary64 value;
//! the schema and the processor read nothing of a price but its bits and
//! whether those bits denote a value greater than zero.

use vstd::prelude::*;

use crate::codec::{
    le32, le64, bool_byte, u32_of_le, u64_of_le, parse_len_bytes, parse_bool_at, parse_fixed,
    parse_u64_at, lemma_parse_len_bytes_at, lemma_parse_bool_at, lemma_parse_u64_at,
    read_len_bytes, read_bool_at, read_fixed,
    read_u64_at, u32_to_le_vec, u64_to_le_vec, append_bytes, zero_seq,
};

verus! {

/// Every product slot is allocated at exactly this byte budget, and a
/// serialized product record must fit in it.
pub const PRODUCT_SLOT_SIZE: usize = 1000;

/// Exact size of a serialized price-counter record.
pub const COUNTER_RECORD_SIZE: usize = 20;

/// Exact size of a serialized price-entry record.
pub const PRICE_RECORD_SIZE: usize = 50;

/// The kind tag of a product record: the bytes of "product".
pub open spec fn product_tag() -> Seq<u8> {
    seq![0x70u8, 0x72u8, 0x6fu8, 0x64u8, 0x75u8, 0x63u8, 0x74u8]
}

/// The kind tag of a price-counter record: the bytes of "counter".
pub open spec fn counter_tag() -> Seq<u8> {
    seq![0x63u8, 0x6fu8, 0x75u8, 0x6eu8, 0x74u8, 0x65u8, 0x72u8]
}

/// The kind tag of a price-entry record: the bytes of "price".
pub open spec fn price_tag() -> Seq<u8> {
    seq![0x70u8, 0x72u8, 0x69u8, 0x63u8, 0x65u8]
}

/// The bytes of "product" as a vector.
pub fn product_tag_vec() -> (r: Vec<u8>)
    ensures
        r@ == product_tag(),
{
    let mut v: Vec<u8> = Vec::new();
    v.push(0x70u8);
    v.push(0x72u8);
    v.push(0x6fu8);
    v.push(0x64u8);
    v.push(0x75u8);
    v.push(0x63u8);
    v.push(0x74u8);
    proof {
        assert(v@ =~= product_tag());
    }
    v
}

/// The bytes of "counter" as a vector.
pub fn counter_tag_vec() -> (r: Vec<u8>)
    ensures
        r@ == counter_tag(),
{
    let mut v: Vec<u8> = Vec::new();
    v.push(0x63u8);
    v.push(0x6fu8);
    v.push(0x75u8);
    v.push(0x6eu8);
    v.push(0x74u8);
    v.push(0x65u8);
    v.push(0x72u8);
    proof {
        assert(v@ =~= counter_tag());
    }
    v
}

/// The bytes of "price" as a vector.
pub fn price_tag_vec() -> (r: Vec<u8>)
    ensures
        r@ == price_tag(),
{
    let mut v: Vec<u8> = Vec::new();
    v.push(0x70u8);
    v.push(0x72u8);
    v.push(0x69u8);
    v.push(0x63u8);
    v.push(0x65u8);
    proof {
        assert(v@ =~= price_tag());
    }
    v
}

/// Whether `bits`, read as an IEEE 754 binary64 image, denotes a value
/// strictly greater than zero: the sign bit is clear, the image is not zero,
/// and it is not a NaN image (which compares greater than nothing).
pub open spec fn price_bits_positive(bits: u64) -> bool {
    1 <= bits <= 0x7ff0000000000000u64
}

/// Executable test matching `price_bits_positive`.
pub fn is_price_positive(bits: u64) -> (r: bool)
    ensures
        r == price_bits_positive(bits),
{
    1 <= bits && bits <= 0x7ff0000000000000u64
}

/// A product record: kind tag, initialization flag, owning signer, immutable
/// caller-chosen identifier, mutable name, and mutable price bits.
pub struct ProductAccountState {
    pub discriminator: Vec<u8>,
    pub is_initialized: bool,
    pub seller: Vec<u8>,
    pub id: u64,
    pub name: Vec<u8>,
    pub price: u64,
}

/// Mathematical image of a product record.
#[verifier::ext_equal]
pub struct ProductRecordView {
    pub discriminator: Seq<u8>,
    pub is_initialized: bool,
    pub seller: Seq<u8>,
    pub id: u64,
    pub name: Seq<u8>,
    pub price: u64,
}

impl View for ProductAccountState {
    type V = ProductRecordView;

    open spec fn view(&self) -> ProductRecordView {
        ProductRecordView {
            discriminator: self.discriminator@,
            is_initialized: self.is_initialized,
            seller: self.seller@,
            id: self.id,
            name: self.name@,
            price: self.price,
        }
    }
}

impl ProductRecordView {
    /// Field sizes under which the record serializes faithfully.
    pub open spec fn wf(self) -> bool {
        &&& self.seller.len() == 32
        &&& self.discriminator.len() <= u32::MAX
        &&& self.name.len() <= u32::MAX
    }
}

/// Byte image of a product record: length-prefixed tag, flag byte, 32-byte
/// seller, 64-bit id, length-prefixed name, 64-bit price bits.
pub open spec fn spec_serialize_product(r: ProductRecordView) -> Seq<u8> {
    le32(r.discriminator.len() as u32) + r.discriminator + bool_byte(r.is_initialized) + r.seller
        + le64(r.id) + le32(r.name.len() as u32) + r.name + le64(r.price)
}

/// Reads a product record from a prefix of `data`; bytes past the record are
/// ignored. `None` means no product record starts at the beginning of `data`.
pub open spec fn spec_parse_product(data: Seq<u8>) -> Option<ProductRecordView> {
    match parse_len_bytes(data, 0) {
        None => None,
        Some((disc, p1)) => match parse_bool_at(data, p1) {
            None => None,
            Some((init, p2)) => match parse_fixed(data, p2, 32) {
                None => None,
                Some((seller, p3)) => match parse_u64_at(data, p3) {
                    None => None,
                    Some((id, p4)) => match parse_len_bytes(data, p4) {
                        None => None,
                        Some((name, p5)) => match parse_u64_at(data, p5) {
                            None => None,
                            Some((price, p6)) => Some(
                                ProductRecordView {
                                    discriminator: disc,
                                    is_initialized: init,
                                    seller: seller,
                                    id: id,
                                    name: name,
                                    price: price,
                                },
                            ),
                        },
                    },
                },
            },
        },
    }
}

/// Exact byte length of a serialized product record as a function of the
/// name's byte length: 16 bytes of tag and name framing plus the flag, the
/// 32-byte seller, the 64-bit id and the 64-bit price bits.
pub open spec fn spec_product_record_size(name_len: int) -> int {
    64 + name_len
}

impl ProductAccountState {
    /// Exact serialized byte length of a product record carrying `name`.
    pub fn get_account_size(name: &Vec<u8>) -> (n: usize)
        requires
            name@.len() + 64 <= usize::MAX,
        ensures
            n as int == spec_product_record_size(name@.len() as int),
    {
        64 + name.len()
    }

    /// The record's initialization flag.
    pub fn is_initialized(&self) -> (b: bool)
        ensures
            b == self@.is_initialized,
    {
        self.is_initialized
    }
}

/// A product record with the product tag serializes to exactly
/// `spec_product_record_size(name length)` bytes.
pub proof fn lemma_product_serialized_size(r: ProductRecordView)
    requires
        r.seller.len() == 32,
        r.discriminator == product_tag(),
    ensures
        spec_serialize_product(r).len() == spec_product_record_size(r.name.len() as int),
{
}

/// Serializes a product record.
pub fn serialize_product(r: &ProductAccountState) -> (out: Vec<u8>)
    requires
        r@.wf(),
    ensures
        out@ == spec_serialize_product(r@),
{
    let mut out: Vec<u8> = u32_to_le_vec(r.discriminator.len() as u32);
    append_bytes(&mut out, &r.discriminator);
    out.push(if r.is_initialized { 1u8 } else { 0u8 });
    append_bytes(&mut out, &r.seller);
    let idv: Vec<u8> = u64_to_le_vec(r.id);
    append_bytes(&mut out, &idv);
    let nlen: Vec<u8> = u32_to_le_vec(r.name.len() as u32);
    append_bytes(&mut out, &nlen);
    append_bytes(&mut out, &r.name);
    let pv: Vec<u8> = u64_to_le_vec(r.price);
    append_bytes(&mut out, &pv);
    proof {
        assert(out@ =~= spec_serialize_product(r@));
    }
    out
}

/// Parses a product record from a prefix of `data`.
pub fn try_parse_product(data: &Vec<u8>) -> (r: Option<ProductAccountState>)
    ensures
        match r {
            Some(rec) => spec_parse_product(data@) == Some(rec@),
            None => spec_parse_product(data@) is None,
        },
{
    let disc: (Vec<u8>, usize) = match read_len_bytes(data, 0) {
        Some(v) => v,
        None => { return None; },
    };
    let init: (bool, usize) = match read_bool_at(data, disc.1) {
        Some(v) => v,
        None => { return None; },
    };
    let seller: (Vec<u8>, usize) = match read_fixed(data, init.1, 32) {
        Some(v) => v,
        None => { return None; },
    };
    let id: (u64, usize) = match read_u64_at(data, seller.1) {
        Some(v) => v,
        None => { return None; },
    };
    let name: (Vec<u8>, usize) = match read_len_bytes(data, id.1) {
        Some(v) => v,
        None => { return None; },
    };
    let price: (u64, usize) = match read_u64_at(data, name.1) {
        Some(v) => v,
        None => { return None; },
    };
    Some(
        ProductAccountState {
            discriminator: disc.0,
            is_initialized: init.0,
            seller: seller.0,
            id: id.0,
            name: name.0,
            price: price.0,
        },
    )
}

/// Parsing starts over again where serialization left off: a serialized
/// product record followed by anything parses back to the record itself.
pub proof fn lemma_product_roundtrip(r: ProductRecordView, rest: Seq<u8>)
    requires
        r.wf(),
    ensures
        spec_parse_product(spec_serialize_product(r) + rest) == Some(r),
{
    let data = spec_serialize_product(r) + rest;
    let dl = r.discriminator.len() as int;
    let nl = r.name.len() as int;
    let p1 = 4 + dl;
    let p2 = p1 + 1;
    let p3 = p2 + 32;
    let p4 = p3 + 8;
    let p5 = p4 + 4 + nl;
    assert(data.subrange(0, 4) =~= le32(r.discriminator.len() as u32));
    assert(data.subrange(4, 4 + dl) =~= r.discriminator);
    lemma_parse_len_bytes_at(data, 0, r.discriminator);
    assert(data.subrange(p1, p1 + 1) =~= bool_byte(r.is_initialized));
    lemma_parse_bool_at(data, p1, r.is_initialized);
    assert(data.subrange(p2, p2 + 32) =~= r.seller);
    assert(data.subrange(p3, p3 + 8) =~= le64(r.id));
    lemma_parse_u64_at(data, p3, r.id);
    assert(data.subrange(p4, p4 + 4) =~= le32(r.name.len() as u32));
    assert(data.subrange(p4 + 4, p4 + 4 + nl) =~= r.name);
    lemma_parse_len_bytes_at(data, p4, r.name);
    assert(data.subrange(p5, p5 + 8) =~= le64(r.price));
    lemma_parse_u64_at(data, p5, r.price);
}

/// A parsed product record is well-formed and re-serializes into no more
/// bytes than it was read from.
pub proof fn lemma_parsed_product_fits(data: Seq<u8>, r: ProductRecordView)
    requires
        spec_parse_product(data) == Some(r),
    ensures
        r.wf(),
        spec_serialize_product(r).len() <= data.len(),
{
}

/// An all-zero buffer of at least the minimal record length parses as a
/// product record whose initialization flag is false: this is the mechanism
/// by which a freshly allocated slot is recognized.
pub proof fn lemma_zeroed_product_uninitialized(n: int)
    requires
        n >= 57,
    ensures
        spec_parse_product(zero_seq(n)) matches Some(r) && !r.is_initialized,
{
    let data = zero_seq(n);
    assert(u32_of_le(data.subrange(0, 4)) == 0) by {
        assert(data.subrange(0, 4)[0] == 0);
        assert(data.subrange(0, 4)[1] == 0);
        assert(data.subrange(0, 4)[2] == 0);
        assert(data.subrange(0, 4)[3] == 0);
        assert((0u32 | ((0u8 as u32) << 8) | ((0u8 as u32) << 16) | ((0u8 as u32) << 24))
            == 0) by (bit_vector);
    }
    assert(parse_len_bytes(data, 0) == Some((data.subrange(4, 4), 4int)));
    assert(data[4] == 0);
    assert(parse_bool_at(data, 4) == Some((false, 5int)));
    assert(u32_of_le(data.subrange(45, 49)) == 0) by {
        assert(data.subrange(45, 49)[0] == 0);
        assert(data.subrange(45, 49)[1] == 0);
        assert(data.subrange(45, 49)[2] == 0);
        assert(data.subrange(45, 49)[3] == 0);
        assert((0u32 | ((0u8 as u32) << 8) | ((0u8 as u32) << 16) | ((0u8 as u32) << 24))
            == 0) by (bit_vector);
    }
    assert(parse_fixed(data, 5, 32) == Some((data.subrange(5, 37), 37int)));
    assert(parse_u64_at(data, 37) is Some);
    assert(parse_len_bytes(data, 45) is Some);
    assert(parse_u64_at(data, 49) is Some);
}


/// A price-counter record: kind tag, initialization flag, and the number of
/// price entries ever created for its product.
pub struct ProductPriceCounter {
    pub discriminator: Vec<u8>,
    pub is_initialized: bool,
    pub counter: u64,
}

/// Mathematical image of a price-counter record.
#[verifier::ext_equal]
pub struct CounterRecordView {
    pub discriminator: Seq<u8>,
    pub is_initialized: bool,
    pub counter: u64,
}

impl View for ProductPriceCounter {
    type V = CounterRecordView;

    open spec fn view(&self) -> CounterRecordView {
        CounterRecordView {
            discriminator: self.discriminator@,
            is_initialized: self.is_initialized,
            counter: self.counter,
        }
    }
}

impl CounterRecordView {
    /// Field sizes under which the record serializes faithfully.
    pub open spec fn wf(self) -> bool {
        self.discriminator.len() <= u32::MAX
    }
}

/// Byte image of a price-counter record.
pub open spec fn spec_serialize_counter(r: CounterRecordView) -> Seq<u8> {
    le32(r.discriminator.len() as u32) + r.discriminator + bool_byte(r.is_initialized) + le64(
        r.counter,
    )
}

/// Reads a price-counter record from a prefix of `data`.
pub open spec fn spec_parse_counter(data: Seq<u8>) -> Option<CounterRecordView> {
    match parse_len_bytes(data, 0) {
        None => None,
        Some((disc, p1)) => match parse_bool_at(data, p1) {
            None => None,
            Some((init, p2)) => match parse_u64_at(data, p2) {
                None => None,
                Some((counter, p3)) => Some(
                    CounterRecordView {
                        discriminator: disc,
                        is_initialized: init,
                        counter: counter,
                    },
                ),
            },
        },
    }
}

impl ProductPriceCounter {
    /// The record's initialization flag.
    pub fn is_initialized(&self) -> (b: bool)
        ensures
            b == self@.is_initialized,
    {
        self.is_initialized
    }
}

/// A counter record with the counter tag serializes to exactly
/// `COUNTER_RECORD_SIZE` bytes.
pub proof fn lemma_counter_serialized_size(r: CounterRecordView)
    requires
        r.discriminator == counter_tag(),
    ensures
        spec_serialize_counter(r).len() == COUNTER_RECORD_SIZE,
{
}

/// Serializes a price-counter record.
pub fn serialize_counter(r: &ProductPriceCounter) -> (out: Vec<u8>)
    requires
        r@.wf(),
    ensures
        out@ == spec_serialize_counter(r@),
{
    let mut out: Vec<u8> = u32_to_le_vec(r.discriminator.len() as u32);
    append_bytes(&mut out, &r.discriminator);
    out.push(if r.is_initialized { 1u8 } else { 0u8 });
    let cv: Vec<u8> = u64_to_le_vec(r.counter);
    append_bytes(&mut out, &cv);
    proof {
        assert(out@ =~= spec_serialize_counter(r@));
    }
    out
}

/// Parses a price-counter record from a prefix of `data`.
pub fn try_parse_counter(data: &Vec<u8>) -> (r: Option<ProductPriceCounter>)
    ensures
        match r {
            Some(rec) => spec_parse_counter(data@) == Some(rec@),
            None => spec_parse_counter(data@) is None,
        },
{
    let disc: (Vec<u8>, usize) = match read_len_bytes(data, 0) {
        Some(v) => v,
        None => { return None; },
    };
    let init: (bool, usize) = match read_bool_at(data, disc.1) {
        Some(v) => v,
        None => { return None; },
    };
    let counter: (u64, usize) = match read_u64_at(data, init.1) {
        Some(v) => v,
        None => { return None; },
    };
    Some(
        ProductPriceCounter {
            discriminator: disc.0,
            is_initialized: init.0,
            counter: counter.0,
        },
    )
}

/// A serialized price-counter record followed by anything parses back to the
/// record itself.
pub proof fn lemma_counter_roundtrip(r: CounterRecordView, rest: Seq<u8>)
    requires
        r.wf(),
    ensures
        spec_parse_counter(spec_serialize_counter(r) + rest) == Some(r),
{
    let data = spec_serialize_counter(r) + rest;
    let dl = r.discriminator.len() as int;
    let p1 = 4 + dl;
    let p2 = p1 + 1;
    assert(data.subrange(0, 4) =~= le32(r.discriminator.len() as u32));
    assert(data.subrange(4, 4 + dl) =~= r.discriminator);
    lemma_parse_len_bytes_at(data, 0, r.discriminator);
    assert(data.subrange(p1, p1 + 1) =~= bool_byte(r.is_initialized));
    lemma_parse_bool_at(data, p1, r.is_initialized);
    assert(data.subrange(p2, p2 + 8) =~= le64(r.counter));
    lemma_parse_u64_at(data, p2, r.counter);
}

/// A parsed price-counter record is well-formed and re-serializes into no
/// more bytes than it was read from.
pub proof fn lemma_parsed_counter_fits(data: Seq<u8>, r: CounterRecordView)
    requires
        spec_parse_counter(data) == Some(r),
    ensures
        r.wf(),
        spec_serialize_counter(r).len() <= data.len(),
{
}

/// An all-zero buffer of at least the minimal record length parses as a
/// price-counter record that is uninitialized with counter zero.
pub proof fn lemma_zeroed_counter_uninitialized(n: int)
    requires
        n >= 13,
    ensures
        spec_parse_counter(zero_seq(n)) matches Some(r) && !r.is_initialized && r.counter == 0,
{
    let data = zero_seq(n);
    assert(u32_of_le(data.subrange(0, 4)) == 0) by {
        assert(data.subrange(0, 4)[0] == 0);
        assert(data.subrange(0, 4)[1] == 0);
        assert(data.subrange(0, 4)[2] == 0);
        assert(data.subrange(0, 4)[3] == 0);
        assert((0u32 | ((0u8 as u32) << 8) | ((0u8 as u32) << 16) | ((0u8 as u32) << 24))
            == 0) by (bit_vector);
    }
    assert(parse_len_bytes(data, 0) == Some((data.subrange(4, 4), 4int)));
    assert(data[4] == 0);
    assert(parse_bool_at(data, 4) == Some((false, 5int)));
    let s = data.subrange(5, 13);
    assert(u64_of_le(s) == 0) by {
        assert(s[0] == 0 && s[1] == 0 && s[2] == 0 && s[3] == 0 && s[4] == 0 && s[5] == 0 && s[6]
            == 0 && s[7] == 0);
        assert((0u64 | ((0u8 as u64) << 8) | ((0u8 as u64) << 16) | ((0u8 as u64) << 24) | ((0u8
            as u64) << 32) | ((0u8 as u64) << 40) | ((0u8 as u64) << 48) | ((0u8 as u64) << 56))
            == 0) by (bit_vector);
    }
    assert(parse_u64_at(data, 5) is Some);
}

/// A price-entry record: kind tag, initialization flag, the address of the
/// product it belongs to (a back-reference, never used to mutate), and the
/// observed price bits.
pub struct ProductPrice {
    pub discriminator: Vec<u8>,
    pub is_initialized: bool,
    pub product: Vec<u8>,
    pub price: u64,
}

/// Mathematical image of a price-entry record.
#[verifier::ext_equal]
pub struct PriceRecordView {
    pub discriminator: Seq<u8>,
    pub is_initialized: bool,
    pub product: Seq<u8>,
    pub price: u64,
}

impl View for ProductPrice {
    type V = PriceRecordView;

    open spec fn view(&self) -> PriceRecordView {
        PriceRecordView {
            discriminator: self.discriminator@,
            is_initialized: self.is_initialized,
            product: self.product@,
            price: self.price,
        }
    }
}

impl PriceRecordView {
    /// Field sizes under which the record serializes faithfully.
    pub open spec fn wf(self) -> bool {
        &&& self.discriminator.len() <= u32::MAX
        &&& self.product.len() == 32
    }
}

/// Byte image of a price-entry record.
pub open spec fn spec_serialize_price(r: PriceRecordView) -> Seq<u8> {
    le32(r.discriminator.len() as u32) + r.discriminator + bool_byte(r.is_initialized) + r.product
        + le64(r.price)
}

/// Reads a price-entry record from a prefix of `data`.
pub open spec fn spec_parse_price(data: Seq<u8>) -> Option<PriceRecordView> {
    match parse_len_bytes(data, 0) {
        None => None,
        Some((disc, p1)) => match parse_bool_at(data, p1) {
            None => None,
            Some((init, p2)) => match parse_fixed(data, p2, 32) {
                None => None,
                Some((product, p3)) => match parse_u64_at(data, p3) {
                    None => None,
                    Some((price, p4)) => Some(
                        PriceRecordView {
                            discriminator: disc,
                            is_initialized: init,
                            product: product,
                            price: price,
                        },
                    ),
                },
            },
        },
    }
}

impl ProductPrice {
    /// The record's initialization flag.
    pub fn is_initialized(&self) -> (b: bool)
        ensures
            b == self@.is_initialized,
    {
        self.is_initialized
    }
}

/// A price-entry record with the price tag serializes to exactly
/// `PRICE_RECORD_SIZE` bytes.
pub proof fn lemma_price_serialized_size(r: PriceRecordView)
    requires
        r.discriminator == price_tag(),
        r.product.len() == 32,
    ensures
        spec_serialize_price(r).len() == PRICE_RECORD_SIZE,
{
}

/// Serializes a price-entry record.
pub fn serialize_price(r: &ProductPrice) -> (out: Vec<u8>)
    requires
        r@.wf(),
    ensures
        out@ == spec_serialize_price(r@),
{
    let mut out: Vec<u8> = u32_to_le_vec(r.discriminator.len() as u32);
    append_bytes(&mut out, &r.discriminator);
    out.push(if r.is_initialized { 1u8 } else { 0u8 });
    append_bytes(&mut out, &r.product);
    let pv: Vec<u8> = u64_to_le_vec(r.price);
    append_bytes(&mut out, &pv);
    proof {
        assert(out@ =~= spec_serialize_price(r@));
    }
    out
}

/// Parses a price-entry record from a prefix of `data`.
pub fn try_parse_price(data: &Vec<u8>) -> (r: Option<ProductPrice>)
    ensures
        match r {
            Some(rec) => spec_parse_price(data@) == Some(rec@),
            None => spec_parse_price(data@) is None,
        },
{
    let disc: (Vec<u8>, usize) = match read_len_bytes(data, 0) {
        Some(v) => v,
        None => { return None; },
    };
    let init: (bool, usize) = match read_bool_at(data, disc.1) {
        Some(v) => v,
        None => { return None; },
    };
    let product: (Vec<u8>, usize) = match read_fixed(data, init.1, 32) {
        Some(v) => v,
        None => { return None; },
    };
    let price: (u64, usize) = match read_u64_at(data, product.1) {
        Some(v) => v,
        None => { return None; },
    };
    Some(
        ProductPrice {
            discriminator: disc.0,
            is_initialized: init.0,
            product: product.0,
            price: price.0,
        },
    )
}

/// A serialized price-entry record followed by anything parses back to the
/// record itself.
pub proof fn lemma_price_roundtrip(r: PriceRecordView, rest: Seq<u8>)
    requires
        r.wf(),
    ensures
        spec_parse_price(spec_serialize_price(r) + rest) == Some(r),
{
    let data = spec_serialize_price(r) + rest;
    let dl = r.discriminator.len() as int;
    let p1 = 4 + dl;
    let p2 = p1 + 1;
    let p3 = p2 + 32;
    assert(data.subrange(0, 4) =~= le32(r.discriminator.len() as u32));
    assert(data.subrange(4, 4 + dl) =~= r.discriminator);
    lemma_parse_len_bytes_at(data, 0, r.discriminator);
    assert(data.subrange(p1, p1 + 1) =~= bool_byte(r.is_initialized));
    lemma_parse_bool_at(data, p1, r.is_initialized);
    assert(data.subrange(p2, p2 + 32) =~= r.product);
    assert(data.subrange(p3, p3 + 8) =~= le64(r.price));
    lemma_parse_u64_at(data, p3, r.price);
}

/// An all-zero buffer of at least the minimal record length parses as a
/// price-entry record whose initialization flag is false.
pub proof fn lemma_zeroed_price_uninitialized(n: int)
    requires
        n >= 45,
    ensures
        spec_parse_price(zero_seq(n)) matches Some(r) && !r.is_initialized,
{
    let data = zero_seq(n);
    assert(u32_of_le(data.subrange(0, 4)) == 0) by {
        assert(data.subrange(0, 4)[0] == 0);
        assert(data.subrange(0, 4)[1] == 0);
        assert(data.subrange(0, 4)[2] == 0);
        assert(data.subrange(0, 4)[3] == 0);
        assert((0u32 | ((0u8 as u32) << 8) | ((0u8 as u32) << 16) | ((0u8 as u32) << 24))
            == 0) by (bit_vector);
    }
    assert(parse_len_bytes(data, 0) == Some((data.subrange(4, 4), 4int)));
    assert(data[4] == 0);
    assert(parse_bool_at(data, 4) == Some((false, 5int)));
    assert(parse_fixed(data, 5, 32) == Some((data.subrange(5, 37), 37int)));
    assert(parse_u64_at(data, 37) is Some);
}

} // verus!

