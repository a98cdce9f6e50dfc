//! Candidate pools: which of the classified moves of a position pass a filter.
//!
//! A pool is a set of positions in the list of moves. Executable code holds a pool as a vector
//! that lists each of its members once.

use vstd::prelude::*;
use vstd::seq_lib::lemma_seq_contains_after_push;
use crate::piece::PieceKind;
use crate::turn::{views, ClassifiedMove, ClassifiedMoveView};

verus! {

/// The tests a strategy applies to a move.
#[derive(Clone, Copy, Debug, PartialEq, Eq)]
pub enum TurnFilter {
    /// Every move.
    Any,
    /// Moves that give checkmate.
    Checkmate,
    /// Moves that give check.
    Check,
    /// Moves that take a piece.
    Capture,
    /// Moves that take nothing.
    Peaceful,
    /// Moves that give checkmate and take nothing.
    PeacefulCheckmate,
    /// Moves that neither take a piece nor give check.
    Quiet,
    /// Quiet moves that give checkmate.
    QuietCheckmate,
    /// Moves that take a piece and do not give checkmate.
    CaptureNotCheckmate,
    /// A pawn takes a pawn and does not give checkmate.
    PawnTakesPawn,
}

impl TurnFilter {
    /// Whether the filter lets `turn` pass.
    pub open spec fn accepts(self, turn: ClassifiedMoveView) -> bool {
        match self {
            TurnFilter::Any => true,
            TurnFilter::Checkmate => turn.is_checkmate,
            TurnFilter::Check => turn.is_check,
            TurnFilter::Capture => turn.is_capture,
            TurnFilter::Peaceful => !turn.is_capture,
            TurnFilter::PeacefulCheckmate => turn.is_checkmate && !turn.is_capture,
            TurnFilter::Quiet => !turn.is_capture && !turn.is_check,
            TurnFilter::QuietCheckmate => !turn.is_capture && !turn.is_check && turn.is_checkmate,
            TurnFilter::CaptureNotCheckmate => turn.is_capture && !turn.is_checkmate,
            TurnFilter::PawnTakesPawn => {
                &&& turn.is_capture
                &&& !turn.is_checkmate
                &&& turn.mover_kind == PieceKind::Pawn
                &&& turn.captured_kind == Some(PieceKind::Pawn)
            },
        }
    }

    /// Applies the filter to one move.
    pub fn test(&self, turn: &ClassifiedMove) -> (passes: bool)
        ensures
            passes == self.accepts(turn@),
    {
        match self {
            TurnFilter::Any => true,
            TurnFilter::Checkmate => turn.is_checkmate,
            TurnFilter::Check => turn.is_check,
            TurnFilter::Capture => turn.is_capture,
            TurnFilter::Peaceful => !turn.is_capture,
            TurnFilter::PeacefulCheckmate => turn.is_checkmate && !turn.is_capture,
            TurnFilter::Quiet => !turn.is_capture && !turn.is_check,
            TurnFilter::QuietCheckmate => !turn.is_capture && !turn.is_check && turn.is_checkmate,
            TurnFilter::CaptureNotCheckmate => turn.is_capture && !turn.is_checkmate,
            TurnFilter::PawnTakesPawn => {
                turn.is_capture && !turn.is_checkmate && turn.mover_kind == PieceKind::Pawn
                    && turn.captured_kind == Some(PieceKind::Pawn)
            },
        }
    }
}

/// The positions of the moves that pass `filter`.
pub open spec fn matching(turns: Seq<ClassifiedMoveView>, filter: TurnFilter) -> Set<int> {
    Set::new(|i: int| 0 <= i < turns.len() && filter.accepts(turns[i]))
}

/// A pool has a member.
pub open spec fn inhabited(tier: Set<int>) -> bool {
    exists|i: int| tier.contains(i)
}

/// `pool` lists the members of `tier`, each once.
pub open spec fn lists(pool: Seq<usize>, tier: Set<int>) -> bool {
    &&& pool.no_duplicates()
    &&& forall|k: int| 0 <= k < pool.len() ==> tier.contains(#[trigger] pool[k] as int)
    &&& forall|i: int| #[trigger]
        tier.contains(i) ==> exists|k: int| 0 <= k < pool.len() && #[trigger] pool[k] == i
}

/// `pool` goes up strictly.
pub open spec fn ascending(pool: Seq<usize>) -> bool {
    forall|a: int, b: int| 0 <= a < b < pool.len() ==> pool[a] < pool[b]
}

/// A list has an entry exactly when the pool it lists has a member.
pub proof fn lemma_listed_inhabited(pool: Seq<usize>, tier: Set<int>)
    requires
        lists(pool, tier),
    ensures
        pool.len() > 0 <==> inhabited(tier),
{
    if pool.len() > 0 {
        assert(tier.contains(pool[0] as int));
    }
}

/// The moves that pass `filter`, by position, in the order of the list.
pub fn select(turns: &Vec<ClassifiedMove>, filter: TurnFilter) -> (pool: Vec<usize>)
    ensures
        ascending(pool@),
        lists(pool@, matching(views(turns@), filter)),
{
    let mut pool: Vec<usize> = Vec::new();
    let mut i: usize = 0;
    while i < turns.len()
        invariant
            i <= turns.len(),
            ascending(pool@),
            forall|k: int|
                0 <= k < pool.len() ==> (#[trigger] pool[k]) < i && filter.accepts(
                    turns[pool[k] as int]@,
                ),
            forall|j: int|
                0 <= j < i && filter.accepts(#[trigger] turns[j]@) ==> exists|k: int|
                    0 <= k < pool.len() && #[trigger] pool[k] == j,
        decreases turns.len() - i,
    {
        if filter.test(&turns[i]) {
            let ghost before = pool@;
            pool.push(i);
            assert forall|j: int|
                0 <= j <= i && filter.accepts(#[trigger] turns[j]@) implies exists|k: int|
                0 <= k < pool.len() && #[trigger] pool[k] == j by {
                if j < i {
                    let k = choose|k: int| 0 <= k < before.len() && #[trigger] before[k] == j;
                    assert(pool[k] == j);
                } else {
                    assert(pool[pool.len() - 1] == j);
                }
            }
        }
        i += 1;
    }
    pool
}

/// Every position of a list of `count` moves, in order.
pub open spec fn all_positions(count: nat) -> Seq<usize> {
    Seq::new(count, |i: int| i as usize)
}

/// The positions of a list of moves list the pool of all its moves.
pub proof fn lemma_all_positions_listed(turns: Seq<ClassifiedMoveView>)
    requires
        turns.len() <= usize::MAX,
    ensures
        ascending(all_positions(turns.len())),
        lists(all_positions(turns.len()), matching(turns, TurnFilter::Any)),
{
    let pool = all_positions(turns.len());
    lemma_ascending_no_duplicates(pool);
    assert forall|i: int| #[trigger] matching(turns, TurnFilter::Any).contains(i) implies exists|
        k: int,
    | 0 <= k < pool.len() && #[trigger] pool[k] == i by {
        assert(pool[i] == i);
    }
}

/// Collect every turn of a position with `count` legal moves
pub fn all_turns(count: usize) -> (pool: Vec<usize>)
    ensures
        pool@ == all_positions(count as nat),
{
    let mut pool: Vec<usize> = Vec::new();
    let mut i: usize = 0;
    while i < count
        invariant
            i <= count,
            pool@ == all_positions(i as nat),
        decreases count - i,
    {
        pool.push(i);
        i += 1;
        assert(pool@ =~= all_positions(i as nat));
    }
    pool
}

/// Pawn turns that contain capture of another pawn which are not checkmate
pub fn get_pawn_capture_other_pawns_turns(turns: &Vec<ClassifiedMove>) -> (pool: Vec<usize>)
    ensures
        ascending(pool@),
        lists(pool@, matching(views(turns@), TurnFilter::PawnTakesPawn)),
{
    select(turns, TurnFilter::PawnTakesPawn)
}

/// Peaceful turns: they take nothing. Check and checkmate turns are among them.
pub fn get_all_pieceful_turns(turns: &Vec<ClassifiedMove>) -> (pool: Vec<usize>)
    ensures
        ascending(pool@),
        lists(pool@, matching(views(turns@), TurnFilter::Peaceful)),
{
    select(turns, TurnFilter::Peaceful)
}

/// All checkmate turns that do not capture
pub fn get_all_pieceful_checkmate_turns(turns: &Vec<ClassifiedMove>) -> (pool: Vec<usize>)
    ensures
        ascending(pool@),
        lists(pool@, matching(views(turns@), TurnFilter::PeacefulCheckmate)),
{
    select(turns, TurnFilter::PeacefulCheckmate)
}

/// All checkmate turns
pub fn get_all_checkmate_turns(turns: &Vec<ClassifiedMove>) -> (pool: Vec<usize>)
    ensures
        ascending(pool@),
        lists(pool@, matching(views(turns@), TurnFilter::Checkmate)),
{
    select(turns, TurnFilter::Checkmate)
}

/// Get all turns that result with a check
pub fn get_all_check_turns(turns: &Vec<ClassifiedMove>) -> (pool: Vec<usize>)
    ensures
        ascending(pool@),
        lists(pool@, matching(views(turns@), TurnFilter::Check)),
{
    select(turns, TurnFilter::Check)
}

/// All capture turns that are not checkmate turns
pub fn get_capture_turns(turns: &Vec<ClassifiedMove>) -> (pool: Vec<usize>)
    ensures
        ascending(pool@),
        lists(pool@, matching(views(turns@), TurnFilter::CaptureNotCheckmate)),
{
    select(turns, TurnFilter::CaptureNotCheckmate)
}

/// The quiet moves of a position, offered only while one of them gives checkmate: without a
/// quiet checkmate the pool is empty.
pub open spec fn gated_quiet(turns: Seq<ClassifiedMoveView>) -> Set<int> {
    if inhabited(matching(turns, TurnFilter::QuietCheckmate)) {
        matching(turns, TurnFilter::Quiet)
    } else {
        Set::empty()
    }
}

/// Get all peaceful turns that do not contain check, provided one of them is a checkmate turn
pub fn get_all_pieceful_with_check_turns(turns: &Vec<ClassifiedMove>) -> (pool: Vec<usize>)
    ensures
        ascending(pool@),
        lists(pool@, gated_quiet(views(turns@))),
{
    let checkmate = select(turns, TurnFilter::QuietCheckmate);
    proof {
        lemma_listed_inhabited(checkmate@, matching(views(turns@), TurnFilter::QuietCheckmate));
    }
    if checkmate.len() == 0 {
        return checkmate;
    }
    select(turns, TurnFilter::Quiet)
}

/// A list that goes up strictly repeats nothing.
pub proof fn lemma_ascending_no_duplicates(pool: Seq<usize>)
    requires
        ascending(pool),
    ensures
        pool.no_duplicates(),
{
    assert forall|a: int, b: int|
        0 <= a < pool.len() && 0 <= b < pool.len() && a != b implies pool[a] != pool[b] by {
        if a < b {
            assert(pool[a] < pool[b]);
        } else {
            assert(pool[b] < pool[a]);
        }
    }
}

/// A pool has one list that goes up: two such lists of the same pool are equal.
pub proof fn lemma_ascending_list_unique(first: Seq<usize>, second: Seq<usize>, tier: Set<int>)
    requires
        ascending(first),
        lists(first, tier),
        ascending(second),
        lists(second, tier),
    ensures
        first == second,
    decreases first.len(),
{
    if first.len() == 0 {
        if second.len() > 0 {
            assert(tier.contains(second[0] as int));
        }
        assert(first =~= second);
    } else {
        let top = first.last();
        assert(tier.contains(first[first.len() - 1] as int));
        let k = choose|k: int| 0 <= k < second.len() && #[trigger] second[k] == top;
        if k != second.len() - 1 {
            assert(tier.contains(second[second.len() - 1] as int));
            let j = choose|j: int|
                0 <= j < first.len() && #[trigger] first[j] == second[second.len() - 1];
            assert(second[k] < second[second.len() - 1]);
            if j < first.len() - 1 {
                assert(first[j] < first[first.len() - 1]);
            }
            assert(false);
        }
        let rest = tier.remove(top as int);
        let first_rest = first.drop_last();
        let second_rest = second.drop_last();
        lemma_ascending_no_duplicates(first_rest);
        lemma_ascending_no_duplicates(second_rest);
        assert(lists(first_rest, rest)) by {
            assert forall|i: int| #[trigger] rest.contains(i) implies exists|m: int|
                0 <= m < first_rest.len() && #[trigger] first_rest[m] == i by {
                let m = choose|m: int| 0 <= m < first.len() && #[trigger] first[m] == i;
                assert(first_rest[m] == i);
            }
            assert forall|m: int| 0 <= m < first_rest.len() implies rest.contains(
                #[trigger] first_rest[m] as int,
            ) by {
                assert(tier.contains(first[m] as int));
                assert(first[m] < first[first.len() - 1]);
            }
        }
        assert(lists(second_rest, rest)) by {
            assert forall|i: int| #[trigger] rest.contains(i) implies exists|m: int|
                0 <= m < second_rest.len() && #[trigger] second_rest[m] == i by {
                let m = choose|m: int| 0 <= m < second.len() && #[trigger] second[m] == i;
                assert(second_rest[m] == i);
            }
            assert forall|m: int| 0 <= m < second_rest.len() implies rest.contains(
                #[trigger] second_rest[m] as int,
            ) by {
                assert(tier.contains(second[m] as int));
                assert(second[m] < second[second.len() - 1]);
            }
        }
        lemma_ascending_list_unique(first_rest, second_rest, rest);
        assert(first =~= first_rest.push(top));
        assert(second =~= second_rest.push(top));
    }
}

/// Merges two lists that go up into one that goes up and holds what either holds, each entry
/// once.
pub fn merge_pools(first: &Vec<usize>, second: &Vec<usize>) -> (merged: Vec<usize>)
    requires
        ascending(first@),
        ascending(second@),
    ensures
        ascending(merged@),
        forall|x: usize| merged@.contains(x) <==> first@.contains(x) || second@.contains(x),
{
    let mut merged: Vec<usize> = Vec::new();
    let mut i: usize = 0;
    let mut j: usize = 0;
    while i < first.len() || j < second.len()
        invariant
            i <= first.len(),
            j <= second.len(),
            ascending(first@),
            ascending(second@),
            ascending(merged@),
            forall|k: int|
                0 <= k < merged.len() ==> (i < first.len() ==> (#[trigger] merged[k])
                    < first[i as int]) && (j < second.len() ==> merged[k] < second[j as int]),
            forall|x: usize|
                merged@.contains(x) <==> first@.take(i as int).contains(x) || second@.take(
                    j as int,
                ).contains(x),
        decreases first.len() - i + second.len() - j,
    {
        let ghost before = merged@;
        let ghost left = first@.take(i as int);
        let ghost right = second@.take(j as int);
        if j >= second.len() || (i < first.len() && first[i] < second[j]) {
            let entry = first[i];
            merged.push(entry);
            i += 1;
            assert(first@.take(i as int) =~= left.push(entry));
            assert forall|x: usize|
                merged@.contains(x) <==> first@.take(i as int).contains(x) || second@.take(
                    j as int,
                ).contains(x) by {
                lemma_seq_contains_after_push(before, entry, x);
                lemma_seq_contains_after_push(left, entry, x);
                assert(before.contains(x) <==> left.contains(x) || right.contains(x));
            }
        } else if i >= first.len() || second[j] < first[i] {
            let entry = second[j];
            merged.push(entry);
            j += 1;
            assert(second@.take(j as int) =~= right.push(entry));
            assert forall|x: usize|
                merged@.contains(x) <==> first@.take(i as int).contains(x) || second@.take(
                    j as int,
                ).contains(x) by {
                lemma_seq_contains_after_push(before, entry, x);
                lemma_seq_contains_after_push(right, entry, x);
                assert(before.contains(x) <==> left.contains(x) || right.contains(x));
            }
        } else {
            let entry = first[i];
            merged.push(entry);
            i += 1;
            j += 1;
            assert(first@.take(i as int) =~= left.push(entry));
            assert(second@.take(j as int) =~= right.push(entry));
            assert forall|x: usize|
                merged@.contains(x) <==> first@.take(i as int).contains(x) || second@.take(
                    j as int,
                ).contains(x) by {
                lemma_seq_contains_after_push(before, entry, x);
                lemma_seq_contains_after_push(left, entry, x);
                lemma_seq_contains_after_push(right, entry, x);
                assert(before.contains(x) <==> left.contains(x) || right.contains(x));
            }
        }
    }
    assert(first@.take(first@.len() as int) =~= first@);
    assert(second@.take(second@.len() as int) =~= second@);
    merged
}

/// Two lists merged without repeats list the union of their pools.
pub proof fn lemma_lists_union(
    first: Seq<usize>,
    second: Seq<usize>,
    merged: Seq<usize>,
    a: Set<int>,
    b: Set<int>,
)
    requires
        lists(first, a),
        lists(second, b),
        merged.no_duplicates(),
        forall|x: usize| merged.contains(x) <==> first.contains(x) || second.contains(x),
    ensures
        lists(merged, a.union(b)),
{
    assert forall|k: int| 0 <= k < merged.len() implies a.union(b).contains(
        #[trigger] merged[k] as int,
    ) by {
        assert(merged.contains(merged[k]));
    }
    assert forall|i: int| #[trigger] a.union(b).contains(i) implies exists|k: int|
        0 <= k < merged.len() && #[trigger] merged[k] == i by {
        if a.contains(i) {
            let k = choose|k: int| 0 <= k < first.len() && #[trigger] first[k] == i;
            assert(first.contains(first[k]));
            assert(merged.contains(first[k]));
        } else {
            let k = choose|k: int| 0 <= k < second.len() && #[trigger] second[k] == i;
            assert(second.contains(second[k]));
            assert(merged.contains(second[k]));
        }
    }
}

} // verus!
