//! Fixed-width little-endian integers, as the wire carries them.
//!
//! The byte layout is stated arithmetically, by [`le_bytes`] and [`le_value`];
//! the bytes themselves are produced and read by `bincode`.

use vstd::prelude::*;

verus! {

/// The `width` bytes that spell `value` in little-endian order, least
/// significant byte first. Digits beyond `width` are dropped.
pub open spec fn le_bytes(value: nat, width: nat) -> Seq<u8>
    decreases width,
{
    if width == 0 {
        Seq::empty()
    } else {
        seq![(value % 256) as u8] + le_bytes(value / 256, (width - 1) as nat)
    }
}

/// The number that `bytes` spell in little-endian order.
pub open spec fn le_value(bytes: Seq<u8>) -> nat
    decreases bytes.len(),
{
    if bytes.len() == 0 {
        0
    } else {
        bytes[0] as nat + 256 * le_value(bytes.drop_first())
    }
}

/// The number of values that `width` bytes can spell: 256 to the power `width`.
pub open spec fn le_bound(width: nat) -> nat
    decreases width,
{
    if width == 0 {
        1
    } else {
        256 * le_bound((width - 1) as nat)
    }
}

/// `le_bytes` yields exactly `width` bytes.
pub proof fn lemma_le_bytes_len(value: nat, width: nat)
    ensures
        le_bytes(value, width).len() == width,
    decreases width,
{
    if width > 0 {
        lemma_le_bytes_len(value / 256, (width - 1) as nat);
    }
}

/// Reading back what was written gives the value, as long as it fits the width.
pub proof fn lemma_le_round_trip(value: nat, width: nat)
    requires
        value < le_bound(width),
    ensures
        le_value(le_bytes(value, width)) == value,
    decreases width,
{
    if width > 0 {
        let rest = le_bytes(value / 256, (width - 1) as nat);
        let all = le_bytes(value, width);
        lemma_le_bytes_len(value, width);
        assert(all.drop_first() =~= rest);
        lemma_le_round_trip(value / 256, (width - 1) as nat);
    }
}

/// Four bytes spell the numbers of `u32`, eight those of `u64`.
pub proof fn lemma_le_bound_of_words()
    ensures
        le_bound(4) == 0x1_0000_0000,
        le_bound(8) == 0x1_0000_0000_0000_0000,
{
    reveal_with_fuel(le_bound, 9);
}

/// `bincode::ErrorKind`, the reason `bincode` gives for a failure. It is
/// carried, never inspected.
#[verifier::external_type_specification]
#[verifier::external_body]
pub struct ExErrorKind(bincode::ErrorKind);

/// Calls `bincode::serialize` on a `u32`.
///
/// Trusted: with its fixed-width little-endian configuration and no size
/// limit, `bincode` writes the four bytes of the value, lowest first, into a
/// fresh vector, and reports no error.
#[verifier::external_body]
pub(crate) fn serialize_u32(value: u32) -> (result: Result<Vec<u8>, bincode::Error>)
    ensures
        result is Ok,
        result->Ok_0@ == le_bytes(value as nat, 4),
{
    bincode::serialize(&value)
}

/// Calls `bincode::serialize` on a `u64`.
///
/// Trusted: as for `u32`, with eight bytes.
#[verifier::external_body]
pub(crate) fn serialize_u64(value: u64) -> (result: Result<Vec<u8>, bincode::Error>)
    ensures
        result is Ok,
        result->Ok_0@ == le_bytes(value as nat, 8),
{
    bincode::serialize(&value)
}

/// Calls `bincode::deserialize` for a `u32`.
///
/// Trusted: `bincode` reads the first four bytes as a little-endian number
/// and ignores what follows them; with fewer than four bytes it fails.
#[verifier::external_body]
pub(crate) fn deserialize_u32(bytes: &[u8]) -> (result: Result<u32, bincode::Error>)
    ensures
        result is Ok <==> bytes@.len() >= 4,
        result is Ok ==> result->Ok_0 == le_value(bytes@.take(4)),
{
    bincode::deserialize::<u32>(bytes)
}

/// Calls `bincode::deserialize` for a `u64`.
///
/// Trusted: as for `u32`, with eight bytes.
#[verifier::external_body]
pub(crate) fn deserialize_u64(bytes: &[u8]) -> (result: Result<u64, bincode::Error>)
    ensures
        result is Ok <==> bytes@.len() >= 8,
        result is Ok ==> result->Ok_0 == le_value(bytes@.take(8)),
{
    bincode::deserialize::<u64>(bytes)
}

} // verus!
