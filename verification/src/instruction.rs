//! The decoded command set and the wire decoder: the first byte selects the
//! variant, the remaining bytes are the variant's payload as fixed-width
//! little-endian integers and length-prefixed byte fields, with nothing left
//! over.

use vstd::prelude::*;

use crate::codec::{parse_u64_at, parse_len_bytes, read_u64_at, read_len_bytes};
use crate::error::ProductError;

verus! {

/// A decoded command, as the processor consumes it.
pub enum ProductInstruction {
    /// Create a product record, its counter, and its first price entry.
    AddProduct { id: u64, name: Vec<u8>, price: u64 },
    /// Rename an existing product.
    UpdateProduct { name: Vec<u8> },
    /// Record a price observation for an existing product.
    UpdatePrice { price: u64 },
}

/// Mathematical image of a decoded command.
pub enum InstructionView {
    AddProduct { id: u64, name: Seq<u8>, price: u64 },
    UpdateProduct { name: Seq<u8> },
    UpdatePrice { price: u64 },
}

impl View for ProductInstruction {
    type V = InstructionView;

    open spec fn view(&self) -> InstructionView {
        match self {
            ProductInstruction::AddProduct { id, name, price } => InstructionView::AddProduct {
                id: *id,
                name: name@,
                price: *price,
            },
            ProductInstruction::UpdateProduct { name } => InstructionView::UpdateProduct {
                name: name@,
            },
            ProductInstruction::UpdatePrice { price } => InstructionView::UpdatePrice {
                price: *price,
            },
        }
    }
}

/// The command `data` decodes to, if any: variant byte 0 is AddProduct with
/// an id, a length-prefixed name and price bits; 1 is UpdateProduct with a
/// length-prefixed name; 2 is UpdatePrice with price bits. Trailing bytes, a
/// short payload, or an unknown variant byte decode to nothing.
pub open spec fn spec_unpack(data: Seq<u8>) -> Option<InstructionView> {
    if data.len() < 1 {
        None
    } else if data[0] == 0 {
        match parse_u64_at(data, 1) {
            None => None,
            Some((id, p1)) => match parse_len_bytes(data, p1) {
                None => None,
                Some((name, p2)) => match parse_u64_at(data, p2) {
                    None => None,
                    Some((price, p3)) => if p3 == data.len() {
                        Some(InstructionView::AddProduct { id: id, name: name, price: price })
                    } else {
                        None
                    },
                },
            },
        }
    } else if data[0] == 1 {
        match parse_len_bytes(data, 1) {
            None => None,
            Some((name, p1)) => if p1 == data.len() {
                Some(InstructionView::UpdateProduct { name: name })
            } else {
                None
            },
        }
    } else if data[0] == 2 {
        match parse_u64_at(data, 1) {
            None => None,
            Some((price, p1)) => if p1 == data.len() {
                Some(InstructionView::UpdatePrice { price: price })
            } else {
                None
            },
        }
    } else {
        None
    }
}

impl ProductInstruction {
    /// Decodes a command. A byte string that decodes to no command — unknown
    /// variant byte, malformed or over-long payload — is refused as
    /// InvalidCommand, before any operation runs.
    pub fn unpack(input: &Vec<u8>) -> (r: Result<ProductInstruction, ProductError>)
        ensures
            match r {
                Ok(ins) => spec_unpack(input@) == Some(ins@),
                Err(e) => spec_unpack(input@) is None && e == ProductError::InvalidCommand,
            },
    {
        let n: usize = input.len();
        if n < 1 {
            return Err(ProductError::InvalidCommand);
        }
        let variant: u8 = input[0];
        if variant == 0 {
            let id: (u64, usize) = match read_u64_at(input, 1) {
                Some(v) => v,
                None => {
                    return Err(ProductError::InvalidCommand);
                },
            };
            let name: (Vec<u8>, usize) = match read_len_bytes(input, id.1) {
                Some(v) => v,
                None => {
                    return Err(ProductError::InvalidCommand);
                },
            };
            let price: (u64, usize) = match read_u64_at(input, name.1) {
                Some(v) => v,
                None => {
                    return Err(ProductError::InvalidCommand);
                },
            };
            if price.1 != n {
                return Err(ProductError::InvalidCommand);
            }
            Ok(ProductInstruction::AddProduct { id: id.0, name: name.0, price: price.0 })
        } else if variant == 1 {
            let name: (Vec<u8>, usize) = match read_len_bytes(input, 1) {
                Some(v) => v,
                None => {
                    return Err(ProductError::InvalidCommand);
                },
            };
            if name.1 != n {
                return Err(ProductError::InvalidCommand);
            }
            Ok(ProductInstruction::UpdateProduct { name: name.0 })
        } else if variant == 2 {
            let price: (u64, usize) = match read_u64_at(input, 1) {
                Some(v) => v,
                None => {
                    return Err(ProductError::InvalidCommand);
                },
            };
            if price.1 != n {
                return Err(ProductError::InvalidCommand);
            }
            Ok(ProductInstruction::UpdatePrice { price: price.0 })
        } else {
            Err(ProductError::InvalidCommand)
        }
    }
}

} // verus!
