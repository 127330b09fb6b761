//! The book of open positions: each stored under its identifier, the last
//! identifier handed out, and the open interest on each side.
use crate::dnf::AdjustOpenInterestResult;
use crate::error::PerpError;
use crate::number::Number;
use crate::open::{margin_total, spec_margin_total, OpenPositionExec};
use crate::position::Position;
use vstd::prelude::*;

verus! {

/// Index of the first position at or after `start` with identifier `id`,
/// or -1.
pub open spec fn index_from(s: Seq<Position>, id: u64, start: int) -> int
    decreases s.len() - start,
{
    if start < 0 || start >= s.len() {
        -1
    } else if s[start].id == id {
        start
    } else {
        index_from(s, id, start + 1)
    }
}

/// The position stored under `id`, if any.
pub open spec fn find_position(s: Seq<Position>, id: u64) -> Option<Position> {
    let i = index_from(s, id, 0);
    if i >= 0 {
        Some(s[i])
    } else {
        None
    }
}

/// No identifier occurs twice.
pub open spec fn ids_unique(s: Seq<Position>) -> bool {
    forall|i: int, j: int| 0 <= i < j < s.len() ==> s[i].id != s[j].id
}

proof fn lemma_index_from(s: Seq<Position>, id: u64, start: int)
    requires
        0 <= start <= s.len(),
    ensures
        index_from(s, id, start) == -1 || start <= index_from(s, id, start) < s.len(),
        index_from(s, id, start) >= 0 ==> s[index_from(s, id, start)].id == id,
        index_from(s, id, start) < 0 ==> forall|k: int| start <= k < s.len() ==> s[k].id != id,
        index_from(s, id, start) >= 0 ==> forall|k: int| start <= k < index_from(s, id, start) ==> s[k].id != id,
    decreases s.len() - start,
{
    if start < s.len() {
        lemma_index_from(s, id, start + 1);
    }
}

/// Where an identifier is found, and that it is nowhere else.
proof fn lemma_index(s: Seq<Position>, id: u64)
    ensures
        -1 <= index_from(s, id, 0) < s.len(),
        index_from(s, id, 0) >= 0 ==> s[index_from(s, id, 0)].id == id,
        index_from(s, id, 0) < 0 <==> forall|k: int| 0 <= k < s.len() ==> s[k].id != id,
        index_from(s, id, 0) >= 0 ==> forall|k: int| 0 <= k < index_from(s, id, 0) ==> s[k].id != id,
{
    lemma_index_from(s, id, 0);
}

/// With unique identifiers, the position at `i` is the one found for its
/// identifier.
proof fn lemma_found_at(s: Seq<Position>, i: int)
    requires
        ids_unique(s),
        0 <= i < s.len(),
    ensures
        index_from(s, s[i].id, 0) == i,
{
    lemma_index(s, s[i].id);
    let k = index_from(s, s[i].id, 0);
    if k >= 0 && k != i {
        if k < i {
            assert(s[k].id != s[i].id);
        }
    }
}

/// Whether two sequences hold the same position under every identifier
/// but `id`.
pub open spec fn same_except(a: Seq<Position>, b: Seq<Position>, id: u64) -> bool {
    forall|other: u64| other != id ==> #[trigger] find_position(a, other) == find_position(b, other)
}

/// The book of open positions.
pub struct PositionBook {
    pub positions: Vec<Position>,
    pub last_position_id: u64,
    pub long_interest: Number,
    pub short_interest: Number,
}

impl PositionBook {
    /// Identifiers are unique and never above the last one handed out, and
    /// no open interest is negative.
    pub open spec fn wf(&self) -> bool {
        &&& ids_unique(self.positions@)
        &&& forall|i: int| 0 <= i < self.positions@.len() ==> #[trigger] self.positions@[i].id <= self.last_position_id
        &&& self.long_interest@ >= 0
        &&& self.short_interest@ >= 0
    }

    /// The position stored under `id`, if any.
    pub open spec fn get(&self, id: u64) -> Option<Position> {
        find_position(self.positions@, id)
    }

    fn index(&self, id: u64) -> (r: Option<usize>)
        ensures
            match r {
                Some(i) => i == index_from(self.positions@, id, 0) && i < self.positions@.len(),
                None => index_from(self.positions@, id, 0) < 0,
            },
    {
        proof {
            lemma_index(self.positions@, id);
        }
        let mut i: usize = 0;
        while i < self.positions.len()
            invariant
                i <= self.positions@.len(),
                forall|k: int| 0 <= k < i ==> self.positions@[k].id != id,
            decreases self.positions@.len() - i,
        {
            if self.positions[i].id == id {
                proof {
                    lemma_index(self.positions@, id);
                    let k = index_from(self.positions@, id, 0);
                    if k > i as int || k < 0 {
                        assert(self.positions@[i as int].id == id);
                    }
                    if 0 <= k < i as int {
                        assert(self.positions@[k].id != id);
                    }
                }
                return Some(i);
            }
            i += 1;
        }
        None
    }
}

/// An empty book: no position, no identifier handed out, no open interest.
pub fn positions_init() -> (r: PositionBook)
    ensures
        r.wf(),
        r.positions@.len() == 0,
        r.last_position_id == 0,
        r.long_interest@ == 0,
        r.short_interest@ == 0,
{
    PositionBook { positions: Vec::new(), last_position_id: 0, long_interest: Number::zero(), short_interest: Number::zero() }
}

/// The position stored under `id`; refused when there is none.
pub fn get_position(book: &PositionBook, id: u64) -> (r: Result<Position, PerpError>)
    ensures
        match book.get(id) {
            Some(p) => r == Ok::<Position, PerpError>(p),
            None => r == Err::<Position, PerpError>(PerpError::MissingPosition { id }),
        },
{
    match book.index(id) {
        Some(i) => Ok(book.positions[i]),
        None => Err(PerpError::MissingPosition { id }),
    }
}

/// Removes the position stored under `id`, giving it back; refused when
/// there is none. Every other position stays as it was.
pub fn position_remove(book: &mut PositionBook, id: u64) -> (r: Result<Position, PerpError>)
    requires
        old(book).wf(),
    ensures
        final(book).wf(),
        match old(book).get(id) {
            Some(p) => r == Ok::<Position, PerpError>(p),
            None => r == Err::<Position, PerpError>(PerpError::MissingPosition { id }),
        },
        final(book).get(id) is None,
        same_except(old(book).positions@, final(book).positions@, id),
        final(book).last_position_id == old(book).last_position_id,
        final(book).long_interest == old(book).long_interest,
        final(book).short_interest == old(book).short_interest,
{
    let ghost before = book.positions@;
    proof {
        lemma_index(before, id);
    }
    match book.index(id) {
        Some(i) => {
            let p = book.positions.remove(i);
            proof {
                let after = book.positions@;
                assert(after =~= before.remove(i as int));
                lemma_index(after, id);
                assert forall|other: u64| other != id implies #[trigger] find_position(before, other) == find_position(
                    after,
                    other,
                ) by {
                    lemma_index(before, other);
                    lemma_index(after, other);
                    let a = index_from(before, other, 0);
                    let b = index_from(after, other, 0);
                    if a >= 0 {
                        assert(a != i);
                        if a < i {
                            assert(after[a].id == other);
                        } else {
                            assert(after[a - 1].id == other);
                        }
                    }
                    if b >= 0 {
                        if b < i {
                            assert(before[b].id == other);
                            lemma_found_at(before, b);
                        } else {
                            assert(before[b + 1].id == other);
                            lemma_found_at(before, b + 1);
                        }
                    }
                }
                if index_from(after, id, 0) >= 0 {
                    let k = index_from(after, id, 0);
                    if k < i {
                        assert(before[k].id == id);
                    } else {
                        assert(before[k + 1].id == id);
                    }
                }
                assert forall|x: int| 0 <= x < after.len() implies #[trigger] after[x].id <= book.last_position_id by {
                    if x < i {
                        assert(after[x] == before[x]);
                    } else {
                        assert(after[x] == before[x + 1]);
                    }
                }
            }
            Ok(p)
        },
        None => {
            proof {
                lemma_index(book.positions@, id);
            }
            Err(PerpError::MissingPosition { id })
        },
    }
}

/// Stores a position under its identifier, in place of any stored there;
/// refused when its active collateral does not cover its liquidation
/// margin. Every other position stays as it was.
pub fn position_save(book: &mut PositionBook, pos: Position) -> (r: Result<(), PerpError>)
    requires
        old(book).wf(),
        pos.id <= old(book).last_position_id,
    ensures
        final(book).wf(),
        match spec_margin_total(pos.liquidation_margin) {
            None => r == Err::<(), PerpError>(PerpError::Arithmetic) && *final(book) == *old(book),
            Some(total) => if pos.active_collateral@ < total {
                r matches Err(PerpError::InsufficientMargin { active_collateral, liquidation_margin })
                    && active_collateral == pos.active_collateral && liquidation_margin@ == total && *final(book) == *old(book)
            } else {
                r is Ok && final(book).get(pos.id) == Some(pos)
                    && same_except(old(book).positions@, final(book).positions@, pos.id)
                    && final(book).last_position_id == old(book).last_position_id
                    && final(book).long_interest == old(book).long_interest
                    && final(book).short_interest == old(book).short_interest
            },
        },
{
    let total = match margin_total(&pos.liquidation_margin) {
        Some(t) => t,
        None => return Err(PerpError::Arithmetic),
    };
    if pos.active_collateral.lt(&total) {
        return Err(PerpError::InsufficientMargin { active_collateral: pos.active_collateral, liquidation_margin: total });
    }
    let ghost before = book.positions@;
    proof {
        lemma_index(before, pos.id);
    }
    match book.index(pos.id) {
        Some(i) => {
            book.positions.set(i, pos);
            proof {
                let after = book.positions@;
                assert(after =~= before.update(i as int, pos));
                assert forall|x: int, y: int| 0 <= x < y < after.len() implies after[x].id != after[y].id by {
                    if x == i as int {
                        assert(before[y].id != before[x].id);
                    } else if y == i as int {
                        assert(before[x].id != before[y].id);
                    }
                }
                lemma_found_at(after, i as int);
                assert forall|other: u64| other != pos.id implies #[trigger] find_position(before, other)
                    == find_position(after, other) by {
                    lemma_index(before, other);
                    lemma_index(after, other);
                    let a = index_from(before, other, 0);
                    let b = index_from(after, other, 0);
                    if a >= 0 {
                        assert(after[a].id == other);
                        lemma_found_at(after, a);
                    }
                    if b >= 0 {
                        assert(before[b].id == other);
                        lemma_found_at(before, b);
                    }
                }
            }
        },
        None => {
            book.positions.push(pos);
            proof {
                let after = book.positions@;
                let n = before.len() as int;
                assert(after =~= before.push(pos));
                assert forall|x: int, y: int| 0 <= x < y < after.len() implies after[x].id != after[y].id by {
                    if y == n {
                        assert(before[x].id != pos.id);
                    }
                }
                lemma_found_at(after, n);
                assert forall|other: u64| other != pos.id implies #[trigger] find_position(before, other)
                    == find_position(after, other) by {
                    lemma_index(before, other);
                    lemma_index(after, other);
                    let a = index_from(before, other, 0);
                    let b = index_from(after, other, 0);
                    if a >= 0 {
                        assert(after[a].id == other);
                        lemma_found_at(after, a);
                    }
                    if b >= 0 && b < n {
                        assert(before[b].id == other);
                        lemma_found_at(before, b);
                    }
                }
            }
        },
    }
    Ok(())
}

/// Stores a validated new position: under the next identifier, which
/// becomes the last one handed out, with the open interest it changes.
pub fn apply_open(book: &mut PositionBook, exec: &OpenPositionExec) -> (r: Result<(), PerpError>)
    requires
        old(book).wf(),
        exec.draft.pos.id == old(book).last_position_id + 1,
        match exec.open_interest {
            AdjustOpenInterestResult::Long(l) => l@ >= 0,
            AdjustOpenInterestResult::Short(s) => s@ >= 0,
        },
    ensures
        final(book).wf(),
        r is Ok <==> (spec_margin_total(exec.draft.pos.liquidation_margin) matches Some(t) && exec.draft.pos.active_collateral@ >= t),
        r is Err ==> *final(book) == *old(book),
        r is Ok ==> {
            &&& final(book).get(exec.draft.pos.id) == Some(exec.draft.pos)
            &&& same_except(old(book).positions@, final(book).positions@, exec.draft.pos.id)
            &&& final(book).last_position_id == exec.draft.pos.id
            &&& match exec.open_interest {
                AdjustOpenInterestResult::Long(l) => final(book).long_interest == l && final(book).short_interest
                    == old(book).short_interest,
                AdjustOpenInterestResult::Short(s) => final(book).short_interest == s && final(book).long_interest
                    == old(book).long_interest,
            }
        },
{
    let pos = exec.draft.pos;
    let last_before = book.last_position_id;
    book.last_position_id = pos.id;
    let saved = position_save(book, pos);
    match saved {
        Ok(()) => {
            match exec.open_interest {
                AdjustOpenInterestResult::Long(l) => book.long_interest = l,
                AdjustOpenInterestResult::Short(s) => book.short_interest = s,
            }
            Ok(())
        },
        Err(e) => {
            book.last_position_id = last_before;
            Err(e)
        },
    }
}

} // verus!
