//! Messages and their wire form.
//!
//! A [`Msg`] is an opaque typed payload: a type-identifying path plus
//! raw bytes, the shape in which transactions carry their messages.
//! The engine executes one message kind, a bank transfer, whose wire
//! form the harness defines itself: eight little-endian bytes of
//! recipient account id, sixteen little-endian bytes of amount, and the
//! denomination's bytes.

use vstd::prelude::*;

verus! {

use vstd::bytes::*;
use crate::coin::{bytes_of_slice, clone_bytes};

/// An opaque typed payload: a type path and raw bytes.
#[derive(Debug)]
pub struct Msg {
    /// The type-identifying path of the payload.
    pub type_url: String,
    /// The encoded payload.
    pub value: Vec<u8>,
}

/// The mathematical value of a [`Msg`].
pub ghost struct MsgView {
    pub type_url: Seq<char>,
    pub value: Seq<u8>,
}

impl View for Msg {
    type V = MsgView;

    open spec fn view(&self) -> MsgView {
        MsgView { type_url: self.type_url@, value: self.value@ }
    }
}

impl Clone for Msg {
    fn clone(&self) -> (r: Msg)
        ensures
            r@ == self@,
    {
        Msg { type_url: self.type_url.clone(), value: clone_bytes(&self.value) }
    }
}

/// A bank transfer from the transaction's signer.
#[derive(Debug)]
pub struct Transfer {
    /// Account id of the recipient.
    pub to: u64,
    /// Denomination moved.
    pub denom: Vec<u8>,
    /// Amount moved.
    pub amount: u128,
}

/// The mathematical value of a [`Transfer`].
pub ghost struct TransferView {
    pub to: u64,
    pub denom: Seq<u8>,
    pub amount: u128,
}

impl View for Transfer {
    type V = TransferView;

    open spec fn view(&self) -> TransferView {
        TransferView { to: self.to, denom: self.denom@, amount: self.amount }
    }
}

impl Clone for Transfer {
    fn clone(&self) -> (r: Transfer)
        ensures
            r@ == self@,
    {
        Transfer { to: self.to, denom: clone_bytes(&self.denom), amount: self.amount }
    }
}

/// The wire form of a transfer.
pub open spec fn transfer_bytes(t: TransferView) -> Seq<u8> {
    spec_u64_to_le_bytes(t.to) + spec_u128_to_le_bytes(t.amount) + t.denom
}

/// What a byte string parses to as a transfer, if anything.
pub open spec fn spec_parse_transfer(value: Seq<u8>) -> Option<TransferView> {
    if value.len() < 24 {
        None
    } else {
        Some(
            TransferView {
                to: spec_u64_from_le_bytes(value.subrange(0, 8)),
                amount: spec_u128_from_le_bytes(value.subrange(8, 24)),
                denom: value.skip(24),
            },
        )
    }
}

/// Encoding then parsing gives the transfer back.
pub proof fn lemma_transfer_round_trip(t: TransferView)
    ensures
        spec_parse_transfer(transfer_bytes(t)) == Some(t),
{
    lemma_auto_spec_u64_to_from_le_bytes();
    lemma_auto_spec_u128_to_from_le_bytes();
    let b = transfer_bytes(t);
    assert(b.subrange(0, 8) =~= spec_u64_to_le_bytes(t.to));
    assert(b.subrange(8, 24) =~= spec_u128_to_le_bytes(t.amount));
    assert(b.skip(24) =~= t.denom);
}

impl Transfer {
    /// Encode into the wire form.
    pub fn encode(&self) -> (r: Vec<u8>)
        ensures
            r@ == transfer_bytes(self@),
    {
        let mut out = u64_to_le_bytes(self.to);
        let mut amt = u128_to_le_bytes(self.amount);
        out.append(&mut amt);
        let mut den = clone_bytes(&self.denom);
        out.append(&mut den);
        proof {
            assert(out@ =~= transfer_bytes(self@));
        }
        out
    }

    /// Parse the wire form; `None` when the bytes are too short.
    pub fn parse(value: &Vec<u8>) -> (r: Option<Transfer>)
        ensures
            match r {
                Some(t) => spec_parse_transfer(value@) == Some(t@),
                None => spec_parse_transfer(value@) is None,
            },
    {
        if value.len() < 24 {
            return None;
        }
        let s = value.as_slice();
        let to = u64_from_le_bytes(slice_range(s, 0, 8));
        let amount = u128_from_le_bytes(slice_range(s, 8, 24));
        let denom = bytes_of_slice(slice_range(s, 24, value.len()));
        proof {
            assert(value@.skip(24) =~= value@.subrange(24, value@.len() as int));
        }
        Some(Transfer { to, denom, amount })
    }
}

/// The sub-slice from `lo` (inclusive) to `hi` (exclusive).
pub fn slice_range(s: &[u8], lo: usize, hi: usize) -> (r: &[u8])
    requires
        lo <= hi <= s@.len(),
    ensures
        r@ == s@.subrange(lo as int, hi as int),
{
    let (_, rest) = s.split_at(lo);
    let (mid, _) = rest.split_at(hi - lo);
    proof {
        assert(mid@ =~= s@.subrange(lo as int, hi as int));
    }
    mid
}

} // verus!
