//! Counting the entries of a payload that hold a given value.

use crate::entry::{parse_entry, Parsed};
use crate::layout::{entry_at, entry_text, well_formed};
use crate::metaflac_streaming::VorbisComment;
use crate::position::{
    lemma_empty_walk_yields_nothing, lemma_walk_counts_moves, lemma_walk_stays_inside,
    lemma_walk_visits_entries_in_order, Position,
};
use vstd::prelude::*;
use vstd::string::StringSliceAdditionalSpecFns;
use vstd::utf8::encode_utf8_decode_utf8;

verus! {

/// Whether entry number `k` of `payload` is a key and a value, and the value
/// is `wanted`.
pub open spec fn value_is(payload: Seq<u8>, k: nat, wanted: Seq<char>) -> bool {
    parse_entry(entry_text(payload, entry_at(payload, k))) matches Parsed::Pair(_, v) && v
        == wanted
}

/// How many of the first `n` entries of `payload` have the value `wanted`.
/// Entries that are no key and value count for nothing.
pub open spec fn matches_among(payload: Seq<u8>, wanted: Seq<char>, n: nat) -> nat
    decreases n,
{
    if n == 0 {
        0
    } else {
        matches_among(payload, wanted, (n - 1) as nat) + if value_is(
            payload,
            (n - 1) as nat,
            wanted,
        ) {
            1nat
        } else {
            0nat
        }
    }
}

/// There are no more matches than entries.
pub proof fn lemma_matches_among_bound(payload: Seq<u8>, wanted: Seq<char>, n: nat)
    ensures
        matches_among(payload, wanted, n) <= n,
    decreases n,
{
    if n > 0 {
        lemma_matches_among_bound(payload, wanted, (n - 1) as nat);
    }
}

/// Whether two texts are the same, character for character.
pub fn same_text(a: &str, b: &str) -> (same: bool)
    ensures
        same == (a@ == b@),
{
    let left: &[u8] = a.as_bytes();
    let right: &[u8] = b.as_bytes();
    proof {
        encode_utf8_decode_utf8(a@);
        encode_utf8_decode_utf8(b@);
    }
    if left.len() != right.len() {
        return false;
    }
    let mut i: usize = 0;
    while i < left.len()
        invariant
            left@ == a.spec_bytes(),
            right@ == b.spec_bytes(),
            left@.len() == right@.len(),
            i <= left@.len(),
            forall|j: int| 0 <= j < i ==> left@[j] == right@[j],
        decreases left@.len() - i,
    {
        if left[i] != right[i] {
            return false;
        }
        i += 1;
    }
    assert(left@ =~= right@);
    true
}

/// How many of the first `n` of `values` are the text `wanted`.
pub open spec fn equal_among(values: Seq<String>, wanted: Seq<char>, n: nat) -> nat
    decreases n,
{
    if n == 0 {
        0
    } else {
        equal_among(values, wanted, (n - 1) as nat) + if values[n - 1]@ == wanted {
            1nat
        } else {
            0nat
        }
    }
}

/// Counts the values in a list that are the text `wanted`.
pub fn count_equal(values: &Vec<String>, wanted: &str) -> (count: usize)
    ensures
        count == equal_among(values@, wanted@, values@.len()),
{
    let mut count: usize = 0;
    let mut i: usize = 0;
    while i < values.len()
        invariant
            i <= values@.len(),
            count <= i,
            count == equal_among(values@, wanted@, i as nat),
        decreases values@.len() - i,
    {
        if same_text(values[i].as_str(), wanted) {
            count += 1;
        }
        i += 1;
    }
    count
}

/// Walks a cursor over all its entries and counts those whose value is
/// `wanted`. Entries that fail to decode are passed over.
///
/// The cursor is either one without entries, which counts nothing whatever
/// `bytes` holds, or the one before the first entry of `bytes`. It is left
/// past the last entry.
pub fn count_value(cursor: &mut VorbisComment, bytes: &Vec<u8>, wanted: &str) -> (count: u32)
    requires
        old(cursor)@.count == 0 || (well_formed(bytes@) && old(cursor)@ == Position::start(
            bytes@,
        )),
        old(cursor)@.visited < u64::MAX,
    ensures
        count == matches_among(bytes@, wanted@, old(cursor)@.count),
        final(cursor).file() == old(cursor).file(),
        final(cursor)@ == old(cursor)@.after(bytes@, old(cursor)@.count + 1),
        !final(cursor)@.has_value(),
{
    let mut count: u32 = 0;
    let ghost first = cursor@;
    let ghost mut moves: nat = 0;
    let size: usize = bytes.len();
    loop
        invariant_except_break
            moves <= first.count,
            count == matches_among(bytes@, wanted@, moves),
            cursor@ == first.after(bytes@, moves),
        invariant
            first == old(cursor)@,
            first.count == 0 || (well_formed(bytes@) && first == Position::start(bytes@)),
            first.count <= u32::MAX,
            first.visited < u64::MAX,
            bytes@.len() == size,
            cursor.file() == old(cursor).file(),
        ensures
            count == matches_among(bytes@, wanted@, first.count),
            cursor@ == first.after(bytes@, first.count + 1),
            !cursor@.has_value(),
        decreases first.count - moves,
    {
        proof {
            if first.count == 0 {
                lemma_empty_walk_yields_nothing(first, bytes@, moves);
                lemma_empty_walk_yields_nothing(first, bytes@, moves + 1);
            } else {
                lemma_walk_stays_inside(bytes@, moves);
                lemma_walk_stays_inside(bytes@, moves + 1);
                lemma_walk_visits_entries_in_order(bytes@, moves + 1);
            }
            lemma_walk_counts_moves(first, bytes@, moves);
            lemma_matches_among_bound(bytes@, wanted@, moves);
        }
        let more: bool = cursor.next(bytes);
        if !more {
            break ;
        }
        let hit: bool = match cursor.cur(bytes) {
            Ok(Some((_, _, value))) => same_text(value, wanted),
            _ => false,
        };
        if hit {
            count += 1;
        }
        proof {
            moves = moves + 1;
        }
    }
    count
}

} // verus!
