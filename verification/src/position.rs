//! Where a cursor stands, as mathematics, and how a walk over a payload goes.

use crate::layout::{
    entry_at, entry_count, entry_end, entry_fits, first_entry_at, lemma_entry_at_grows,
    lemma_le_u32_range, vendor_len, well_formed,
};
use vstd::prelude::*;

verus! {

/// The state of a cursor: what it knows of the payload and how far it is.
pub struct Position {
    /// The number of entries that the payload declared.
    pub count: nat,
    /// The offset in the payload of the entry that the cursor last came to.
    pub offset: nat,
    /// How many times the cursor has moved: 0 before the first entry, `k`
    /// while it stands on entry `k - 1`, and more than `count` once it is
    /// past the last.
    pub visited: nat,
}

impl Position {
    /// The position of a cursor that has nothing to walk.
    pub open spec fn empty() -> Position {
        Position { count: 0, offset: 0, visited: 0 }
    }

    /// The position before the first entry of `payload`.
    pub open spec fn start(payload: Seq<u8>) -> Position {
        Position {
            count: entry_count(payload) as nat,
            offset: first_entry_at(payload) as nat,
            visited: 0,
        }
    }

    /// Whether the cursor stands on an entry.
    pub open spec fn has_value(self) -> bool {
        1 <= self.visited <= self.count
    }

    /// The position after one move.
    ///
    /// Every move is counted. The first goes onto entry 0, where the cursor
    /// already points. Each further move steps over the entry under the
    /// cursor, as long as another entry follows. A move from the last entry
    /// leaves the entries, and from then on only the count of moves grows.
    pub open spec fn next(self, payload: Seq<u8>) -> Position {
        Position {
            count: self.count,
            offset: if 0 < self.visited < self.count {
                entry_end(payload, self.offset as int) as nat
            } else {
                self.offset
            },
            visited: self.visited + 1,
        }
    }

    /// The position after `moves` moves.
    pub open spec fn after(self, payload: Seq<u8>, moves: nat) -> Position
        decreases moves,
    {
        if moves == 0 {
            self
        } else {
            self.after(payload, (moves - 1) as nat).next(payload)
        }
    }

    /// Whether a move from here can read what it needs: the length of the
    /// entry under the cursor, where it has to step over one, and an end of
    /// that entry that an offset can hold.
    pub open spec fn can_move(self, payload: Seq<u8>) -> bool {
        0 < self.visited < self.count ==> self.offset + 4 <= payload.len() && entry_end(
            payload,
            self.offset as int,
        ) <= usize::MAX
    }

    /// Whether the entry under the cursor, if there is one, lies inside
    /// `payload`.
    pub open spec fn can_read(self, payload: Seq<u8>) -> bool {
        self.has_value() ==> entry_fits(payload, self.offset as int)
    }
}

/// A walk from the start of a payload comes to every entry in turn: the
/// `moves`-th move, for `moves` from 1 to the entry count, stands on entry
/// `moves - 1`. Before the first move and after more moves than there are
/// entries, the cursor stands on nothing, however many moves follow.
pub proof fn lemma_walk_visits_entries_in_order(payload: Seq<u8>, moves: nat)
    ensures
        ({
            let here = Position::start(payload).after(payload, moves);
            &&& here.count == entry_count(payload)
            &&& here.visited == moves
            &&& here.has_value() <==> 1 <= moves <= entry_count(payload)
            &&& here.has_value() ==> here.offset == entry_at(payload, (moves - 1) as nat)
        }),
    decreases moves,
{
    lemma_le_u32_range(payload, 0);
    lemma_le_u32_range(payload, 4 + vendor_len(payload));
    lemma_walk_counts_moves(Position::start(payload), payload, moves);
    if moves > 0 {
        lemma_walk_visits_entries_in_order(payload, (moves - 1) as nat);
        lemma_walk_counts_moves(Position::start(payload), payload, (moves - 1) as nat);
        let before = Position::start(payload).after(payload, (moves - 1) as nat);
        if 1 < moves <= entry_count(payload) {
            lemma_entry_at_grows(payload, 0, (moves - 2) as nat);
            lemma_le_u32_range(payload, before.offset as int);
        }
    }
}

/// On a well-formed payload a walk never reads outside it: every move can be
/// made, and every entry that it comes to can be read.
pub proof fn lemma_walk_stays_inside(payload: Seq<u8>, moves: nat)
    requires
        well_formed(payload),
        payload.len() <= usize::MAX,
    ensures
        Position::start(payload).after(payload, moves).can_move(payload),
        Position::start(payload).after(payload, moves).can_read(payload),
{
    lemma_walk_visits_entries_in_order(payload, moves);
    let here = Position::start(payload).after(payload, moves);
    if here.has_value() {
        lemma_le_u32_range(payload, here.offset as int);
    }
}

/// A cursor without entries stands on nothing, however often it is moved
/// and whatever bytes it is moved over, and no move reads any of them.
pub proof fn lemma_empty_walk_yields_nothing(from: Position, payload: Seq<u8>, moves: nat)
    requires
        from.count == 0,
    ensures
        !from.after(payload, moves).has_value(),
        from.after(payload, moves).can_move(payload),
        from.after(payload, moves).can_read(payload),
        from.after(payload, moves).count == 0,
    decreases moves,
{
    if moves > 0 {
        lemma_empty_walk_yields_nothing(from, payload, (moves - 1) as nat);
    }
}

/// A walk counts its moves, and keeps the entry count that it started with.
pub proof fn lemma_walk_counts_moves(from: Position, payload: Seq<u8>, moves: nat)
    ensures
        from.after(payload, moves).count == from.count,
        from.after(payload, moves).visited == from.visited + moves,
    decreases moves,
{
    if moves > 0 {
        lemma_walk_counts_moves(from, payload, (moves - 1) as nat);
    }
}

} // verus!
