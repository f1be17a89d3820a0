//! The storage-slot model and the allocator. A slot is a host-managed,
//! address-identified byte buffer with a funding balance and an owning
//! program; the allocator materializes a zeroed, rent-funded, program-owned
//! buffer at a derived address, failing — without mutating anything — on an
//! address mismatch, a slot already in use, or insufficient funds.

use vstd::prelude::*;

use crate::codec::{copy_range, zero_seq, zero_vec, spec_write_prefix};
use crate::error::ProductError;

verus! {

/// A storage slot as the host hands it to the program: its address, its
/// funding balance, the program that owns it, its raw contents, and whether
/// the identity it stands for signed the current invocation.
#[derive(Clone)]
pub struct Slot {
    pub address: Vec<u8>,
    pub lamports: u64,
    pub owner: Vec<u8>,
    pub data: Vec<u8>,
    pub is_signer: bool,
}

/// Mathematical image of a slot.
#[verifier::ext_equal]
pub struct SlotView {
    pub address: Seq<u8>,
    pub lamports: u64,
    pub owner: Seq<u8>,
    pub data: Seq<u8>,
    pub is_signer: bool,
}

impl View for Slot {
    type V = SlotView;

    open spec fn view(&self) -> SlotView {
        SlotView {
            address: self.address@,
            lamports: self.lamports,
            owner: self.owner@,
            data: self.data@,
            is_signer: self.is_signer,
        }
    }
}

impl SlotView {
    /// Addresses are 32 bytes.
    pub open spec fn wf(self) -> bool {
        &&& self.address.len() == 32
        &&& self.owner.len() == 32
    }

    /// A slot is in use once it holds funds or data; allocation at its
    /// address must then be refused.
    pub open spec fn in_use(self) -> bool {
        self.lamports > 0 || self.data.len() > 0
    }
}

/// Byte-for-byte equality of two byte vectors.
pub fn bytes_eq(a: &Vec<u8>, b: &Vec<u8>) -> (r: bool)
    ensures
        r == (a@ == b@),
{
    if a.len() != b.len() {
        return false;
    }
    let n: usize = a.len();
    let mut i: usize = 0;
    while i < n
        invariant
            n == a@.len() == b@.len(),
            i <= n,
            forall|j: int| 0 <= j < i ==> a@[j] == b@[j],
        decreases n - i,
    {
        if a[i] != b[i] {
            return false;
        }
        i = i + 1;
    }
    proof {
        assert(a@ =~= b@);
    }
    true
}

/// An independent copy of a byte vector.
pub fn clone_bytes(v: &Vec<u8>) -> (r: Vec<u8>)
    ensures
        r@ == v@,
{
    let r: Vec<u8> = copy_range(v, 0, v.len());
    proof {
        assert(r@ =~= v@);
    }
    r
}

/// An independent copy of a slot, for staging writes that are committed only
/// when a whole operation succeeds.
pub fn clone_slot(s: &Slot) -> (r: Slot)
    ensures
        r@ == s@,
{
    Slot {
        address: clone_bytes(&s.address),
        lamports: s.lamports,
        owner: clone_bytes(&s.owner),
        data: clone_bytes(&s.data),
        is_signer: s.is_signer,
    }
}

/// Overwrites the front of `data` with `bytes`, leaving the tail as it was:
/// how a record is written into a slot buffer.
pub fn write_prefix(data: &mut Vec<u8>, bytes: &Vec<u8>)
    requires
        bytes@.len() <= old(data)@.len(),
    ensures
        final(data)@ == spec_write_prefix(old(data)@, bytes@),
        final(data)@.len() == old(data)@.len(),
{
    let n: usize = bytes.len();
    let dlen: usize = data.len();
    let mut out: Vec<u8> = clone_bytes(bytes);
    let mut i: usize = n;
    while i < dlen
        invariant
            data@ == old(data)@,
            n == bytes@.len(),
            n <= dlen == data@.len(),
            n <= i <= dlen,
            out@ == bytes@ + data@.subrange(n as int, i as int),
        decreases dlen - i,
    {
        out.push(data[i]);
        proof {
            assert(out@ =~= bytes@ + data@.subrange(n as int, (i + 1) as int));
        }
        i = i + 1;
    }
    *data = out;
    proof {
        assert(bytes@ + old(data)@.subrange(0, n as int) =~= bytes@ + old(data)@.subrange(
            0,
            n as int,
        ));
    }
}

/// The storage allocator. Given the pre-derived canonical address for the
/// target, a record size and the host's rent minimum for it, materializes a
/// zeroed slot of that size at the target, owned by the program and funded
/// from `payer`. Refuses, mutating nothing, when the target is not at the
/// derived address, when the target is already in use, or when the payer
/// cannot fund the rent minimum — in that order.
pub fn allocate_slot(
    payer: &mut Slot,
    target: &mut Slot,
    program_id: &Vec<u8>,
    derived: &Vec<u8>,
    size: usize,
    rent_minimum: u64,
) -> (result: Result<(), ProductError>)
    ensures
        match result {
            Ok(()) => old(target)@.address == derived@ && !old(target)@.in_use() && old(
                payer,
            )@.lamports >= rent_minimum && final(target)@ == (SlotView {
                lamports: rent_minimum,
                owner: program_id@,
                data: zero_seq(size as int),
                ..old(target)@
            }) && final(payer)@ == (SlotView {
                lamports: (old(payer)@.lamports - rent_minimum) as u64,
                ..old(payer)@
            }),
            Err(e) => {
                &&& final(payer)@ == old(payer)@
                &&& final(target)@ == old(target)@
                &&& (e == ProductError::AddressMismatch <==> old(target)@.address != derived@)
                &&& (e == ProductError::AlreadyInitialized <==> old(target)@.address == derived@
                    && old(target)@.in_use())
                &&& (e == ProductError::InsufficientFunds <==> old(target)@.address == derived@
                    && !old(target)@.in_use() && old(payer)@.lamports < rent_minimum)
                &&& (e == ProductError::AddressMismatch || e == ProductError::AlreadyInitialized
                    || e == ProductError::InsufficientFunds)
            },
        },
{
    if !bytes_eq(&target.address, derived) {
        return Err(ProductError::AddressMismatch);
    }
    if target.lamports > 0 || target.data.len() > 0 {
        return Err(ProductError::AlreadyInitialized);
    }
    if payer.lamports < rent_minimum {
        return Err(ProductError::InsufficientFunds);
    }
    payer.lamports = payer.lamports - rent_minimum;
    target.lamports = rent_minimum;
    target.owner = clone_bytes(program_id);
    target.data = zero_vec(size);
    Ok(())
}

} // verus!
