//! The byte layout of a Vorbis comment payload, as mathematics.
//!
//! A payload is a vendor string and a list of entries, each behind a four-byte
//! little-endian length:
//!
//! ```text
//! | L: u32 le | L bytes vendor | N: u32 le | M0: u32 le | M0 bytes | M1 ... |
//! ```
//!
//! Everything here speaks of a payload as a `Seq<u8>`; the executable readers
//! at the end are proved against these definitions.

use vstd::prelude::*;

verus! {

/// The number spelled by the four bytes of `bytes` that start at `at`, lowest
/// byte first.
pub open spec fn le_u32(bytes: Seq<u8>, at: int) -> int {
    bytes[at] as int + 0x100 * (bytes[at + 1] as int) + 0x1_0000 * (bytes[at + 2] as int)
        + 0x100_0000 * (bytes[at + 3] as int)
}

/// The declared length of the vendor string.
pub open spec fn vendor_len(payload: Seq<u8>) -> int {
    le_u32(payload, 0)
}

/// Whether the vendor string and the entry count lie inside the payload.
pub open spec fn preamble_fits(payload: Seq<u8>) -> bool {
    4 <= payload.len() && 8 + vendor_len(payload) <= payload.len()
}

/// The declared number of entries.
pub open spec fn entry_count(payload: Seq<u8>) -> int {
    le_u32(payload, 4 + vendor_len(payload))
}

/// Where the first entry starts: right behind the entry count.
pub open spec fn first_entry_at(payload: Seq<u8>) -> int {
    8 + vendor_len(payload)
}

/// Where the entry that starts at `at` ends, which is where the next one starts.
pub open spec fn entry_end(payload: Seq<u8>, at: int) -> int {
    at + 4 + le_u32(payload, at)
}

/// Whether the entry that starts at `at`, length and text, lies inside the
/// payload.
pub open spec fn entry_fits(payload: Seq<u8>, at: int) -> bool {
    0 <= at && entry_end(payload, at) <= payload.len()
}

/// The text bytes of the entry that starts at `at`.
pub open spec fn entry_text(payload: Seq<u8>, at: int) -> Seq<u8> {
    payload.subrange(at + 4, entry_end(payload, at))
}

/// Where entry number `k` starts, counting from zero.
pub open spec fn entry_at(payload: Seq<u8>, k: nat) -> int
    decreases k,
{
    if k == 0 {
        first_entry_at(payload)
    } else {
        entry_end(payload, entry_at(payload, (k - 1) as nat))
    }
}

/// A payload whose preamble and every declared entry lie inside it.
pub open spec fn well_formed(payload: Seq<u8>) -> bool {
    &&& preamble_fits(payload)
    &&& forall|k: nat| k < entry_count(payload) ==> entry_fits(payload, #[trigger] entry_at(payload, k))
}

/// A four-byte number is below 2^32.
pub proof fn lemma_le_u32_range(bytes: Seq<u8>, at: int)
    ensures
        0 <= le_u32(bytes, at) <= u32::MAX,
{
}

/// Entries follow one another: each starts at least four bytes behind the
/// one before.
pub proof fn lemma_entry_at_grows(payload: Seq<u8>, j: nat, k: nat)
    requires
        j <= k,
    ensures
        8 <= entry_at(payload, j),
        entry_at(payload, j) + 4 * (k - j) <= entry_at(payload, k),
    decreases k,
{
    lemma_le_u32_range(payload, 0);
    if k > 0 {
        lemma_le_u32_range(payload, entry_at(payload, (k - 1) as nat));
        if j < k {
            lemma_entry_at_grows(payload, j, (k - 1) as nat);
        } else {
            lemma_entry_at_grows(payload, (k - 1) as nat, (k - 1) as nat);
        }
    }
}

/// Four little-endian bytes at `at`, read as an unsigned number.
pub fn read_le_u32(bytes: &[u8], at: usize) -> (value: u32)
    requires
        at + 4 <= bytes@.len(),
    ensures
        value as int == le_u32(bytes@, at as int),
{
    let b0: u32 = bytes[at] as u32;
    let b1: u32 = bytes[at + 1] as u32;
    let b2: u32 = bytes[at + 2] as u32;
    let b3: u32 = bytes[at + 3] as u32;
    b0 + 0x100 * b1 + 0x1_0000 * b2 + 0x100_0000 * b3
}

/// Whether `bytes` is long enough for the preamble that it declares.
pub fn has_preamble(bytes: &[u8]) -> (fits: bool)
    ensures
        fits == preamble_fits(bytes@),
{
    if bytes.len() < 8 {
        return false;
    }
    let vendor_length: usize = read_le_u32(bytes, 0) as usize;
    vendor_length <= bytes.len() - 8
}

/// Whether `bytes` holds its preamble and every entry that it declares.
///
/// Only the lengths are read, one per entry; no text is decoded.
pub fn is_well_formed(bytes: &[u8]) -> (sound: bool)
    ensures
        sound == well_formed(bytes@),
{
    if !has_preamble(bytes) {
        return false;
    }
    let vendor_length: usize = read_le_u32(bytes, 0) as usize;
    assert(8 + vendor_length <= bytes.len());
    let count: u32 = read_le_u32(bytes, 4 + vendor_length);
    let mut at: usize = 8 + vendor_length;
    let mut k: u32 = 0;
    while k < count
        invariant
            preamble_fits(bytes@),
            count == entry_count(bytes@),
            k <= count,
            at == entry_at(bytes@, k as nat),
            at <= bytes@.len(),
            forall|j: nat| j < k ==> entry_fits(bytes@, #[trigger] entry_at(bytes@, j)),
        decreases count - k,
    {
        if bytes.len() - at < 4 {
            return false;
        }
        let length: usize = read_le_u32(bytes, at) as usize;
        if length > bytes.len() - at - 4 {
            return false;
        }
        at = at + 4 + length;
        k += 1;
    }
    true
}

} // verus!
