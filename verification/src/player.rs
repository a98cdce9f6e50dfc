//! Players defined by four random AI modes.
//!
//! Every player looks one move ahead and no further. It sorts the legal moves of the position
//! into pools, takes the first pool that holds a move, and picks from it at random.

use vstd::prelude::*;
use crate::chance::pick;
use crate::selection::{
    all_positions, all_turns, ascending, gated_quiet, get_all_check_turns, get_all_checkmate_turns,
    get_all_pieceful_checkmate_turns, get_all_pieceful_turns, get_all_pieceful_with_check_turns,
    get_capture_turns, get_pawn_capture_other_pawns_turns, inhabited, lemma_all_positions_listed,
    lemma_ascending_no_duplicates, lemma_listed_inhabited, lemma_lists_union, lists, matching,
    merge_pools, TurnFilter,
};
use crate::text::same_text;
use crate::turn::{
    classified_all, classify_all, first_unreadable, legal_views, readable, views, ClassifiedMove,
    ClassifiedMoveView, LegalMove, LegalMoveView, MalformedNotation,
};

verus! {

/// Representation of a random chess AI
#[derive(Clone, Copy, Debug, PartialEq, Eq, Structural)]
pub enum Player {
    /// Player picks completely random turn
    Random,
    /// Aggressive player that will capture whenever possible.
    ///
    /// Turn priority order:
    /// 1. Checkmate
    /// 2. Capture or Check
    /// 3. Any other turn
    Aggressive,
    /// Peaceful player that never captures anything unless it is forced to
    Pacifist,
    /// Peaceful player that has pawns that are only allowed to capture other
    /// pawns
    SemiPacifist,
}

/// Whether the pawns of the semi-peaceful player may take pawns.
pub const PAWN_CAN_ATTACK_PAWNS: bool = true;

/// Second pool of the aggressive player: the moves that give check or take a piece.
///
/// Checks are not ranked above captures: the piece that gives check is often taken at once by
/// the cornered king.
pub open spec fn harmful_tier(turns: Seq<ClassifiedMoveView>) -> Set<int> {
    matching(turns, TurnFilter::Check).union(matching(turns, TurnFilter::Capture))
}

/// The pool the aggressive player picks from: checkmates, else checks and captures, else
/// anything.
pub open spec fn aggressive_pool(turns: Seq<ClassifiedMoveView>) -> Set<int> {
    if inhabited(matching(turns, TurnFilter::Checkmate)) {
        matching(turns, TurnFilter::Checkmate)
    } else if inhabited(harmful_tier(turns)) {
        harmful_tier(turns)
    } else {
        matching(turns, TurnFilter::Any)
    }
}

/// Second pool of the peaceful players: the moves that take nothing and, where pawns may take
/// pawns, the moves in which a pawn takes a pawn without giving checkmate.
pub open spec fn peaceful_tier(
    turns: Seq<ClassifiedMoveView>,
    pawns_can_attack_pawns: bool,
) -> Set<int> {
    if pawns_can_attack_pawns {
        matching(turns, TurnFilter::Peaceful).union(matching(turns, TurnFilter::PawnTakesPawn))
    } else {
        matching(turns, TurnFilter::Peaceful)
    }
}

/// The pool a peaceful player picks from: checkmates that take nothing, else the peaceful pool,
/// else the quiet moves while one of them mates, else captures short of checkmate, else
/// anything.
pub open spec fn pieceful_pool(
    turns: Seq<ClassifiedMoveView>,
    pawns_can_attack_pawns: bool,
) -> Set<int> {
    if inhabited(matching(turns, TurnFilter::PeacefulCheckmate)) {
        matching(turns, TurnFilter::PeacefulCheckmate)
    } else if inhabited(peaceful_tier(turns, pawns_can_attack_pawns)) {
        peaceful_tier(turns, pawns_can_attack_pawns)
    } else if inhabited(gated_quiet(turns)) {
        gated_quiet(turns)
    } else if inhabited(matching(turns, TurnFilter::CaptureNotCheckmate)) {
        matching(turns, TurnFilter::CaptureNotCheckmate)
    } else {
        matching(turns, TurnFilter::Any)
    }
}

/// The candidates of the aggressive player, each once.
pub fn aggressive_candidates(turns: &Vec<ClassifiedMove>) -> (pool: Vec<usize>)
    ensures
        ascending(pool@),
        lists(pool@, aggressive_pool(views(turns@))),
{
    let ghost all = views(turns@);
    let mates = get_all_checkmate_turns(turns);
    proof {
        lemma_listed_inhabited(mates@, matching(all, TurnFilter::Checkmate));
    }
    if mates.len() > 0 {
        return mates;
    }
    // Combine check and capture turns together
    let check_turns = get_all_check_turns(turns);
    let capture_turns = get_capture_turns(turns);
    let pool = merge_pools(&check_turns, &capture_turns);
    proof {
        lemma_ascending_no_duplicates(pool@);
        lemma_lists_union(
            check_turns@,
            capture_turns@,
            pool@,
            matching(all, TurnFilter::Check),
            matching(all, TurnFilter::CaptureNotCheckmate),
        );
        // No move mates here, so every capture is one short of checkmate.
        assert forall|i: int|
            matching(all, TurnFilter::Capture).contains(i) implies matching(
            all,
            TurnFilter::CaptureNotCheckmate,
        ).contains(i) by {
            assert(!matching(all, TurnFilter::Checkmate).contains(i));
        }
        assert(harmful_tier(all) =~= matching(all, TurnFilter::Check).union(
            matching(all, TurnFilter::CaptureNotCheckmate),
        ));
        lemma_listed_inhabited(pool@, harmful_tier(all));
    }
    if pool.len() > 0 {
        return pool;
    }
    let count = turns.len();
    proof {
        lemma_all_positions_listed(all);
    }
    all_turns(count)
}

/// The candidates of a peaceful player, each once.
pub fn pieceful_candidates(turns: &Vec<ClassifiedMove>, pawns_can_attack_pawns: bool) -> (pool:
    Vec<usize>)
    ensures
        ascending(pool@),
        lists(pool@, pieceful_pool(views(turns@), pawns_can_attack_pawns)),
{
    let ghost all = views(turns@);
    let pool = get_all_pieceful_checkmate_turns(turns);
    proof {
        lemma_listed_inhabited(pool@, matching(all, TurnFilter::PeacefulCheckmate));
    }
    if pool.len() > 0 {
        return pool;
    }
    let mut pool = get_all_pieceful_turns(turns);
    if pawns_can_attack_pawns {
        let pawns_capture_turns = get_pawn_capture_other_pawns_turns(turns);
        let peaceful_turns = pool;
        pool = merge_pools(&peaceful_turns, &pawns_capture_turns);
        proof {
            lemma_ascending_no_duplicates(pool@);
            lemma_lists_union(
                peaceful_turns@,
                pawns_capture_turns@,
                pool@,
                matching(all, TurnFilter::Peaceful),
                matching(all, TurnFilter::PawnTakesPawn),
            );
        }
    }
    proof {
        lemma_listed_inhabited(pool@, peaceful_tier(all, pawns_can_attack_pawns));
    }
    if pool.len() > 0 {
        return pool;
    }
    let pool = get_all_pieceful_with_check_turns(turns);
    proof {
        lemma_listed_inhabited(pool@, gated_quiet(all));
    }
    if pool.len() > 0 {
        return pool;
    }
    let pool = get_capture_turns(turns);
    proof {
        lemma_listed_inhabited(pool@, matching(all, TurnFilter::CaptureNotCheckmate));
    }
    if pool.len() > 0 {
        return pool;
    }
    let count = turns.len();
    proof {
        lemma_all_positions_listed(all);
    }
    all_turns(count)
}

/// The aggressive player never passes up a checkmate: while some move mates, every one of its
/// candidates mates.
pub proof fn lemma_aggressive_takes_checkmate(turns: Seq<ClassifiedMoveView>, chosen: int)
    requires
        exists|i: int| 0 <= i < turns.len() && turns[i].is_checkmate,
        Player::Aggressive.candidate_pool(turns).contains(chosen),
    ensures
        0 <= chosen < turns.len(),
        turns[chosen].is_checkmate,
{
    let i = choose|i: int| 0 <= i < turns.len() && turns[i].is_checkmate;
    assert(matching(turns, TurnFilter::Checkmate).contains(i));
}

/// A peaceful player mates without taking where it can: while some move mates and takes
/// nothing, every one of its candidates mates and takes nothing. This holds whether or not its
/// pawns may take pawns.
pub proof fn lemma_pacifist_takes_peaceful_checkmate(
    turns: Seq<ClassifiedMoveView>,
    pawns_can_attack_pawns: bool,
    chosen: int,
)
    requires
        exists|i: int| 0 <= i < turns.len() && turns[i].is_checkmate && !turns[i].is_capture,
        pieceful_pool(turns, pawns_can_attack_pawns).contains(chosen),
    ensures
        0 <= chosen < turns.len(),
        turns[chosen].is_checkmate,
        !turns[chosen].is_capture,
{
    let i = choose|i: int| 0 <= i < turns.len() && turns[i].is_checkmate && !turns[i].is_capture;
    assert(matching(turns, TurnFilter::PeacefulCheckmate).contains(i));
}

/// Letting pawns take pawns only adds to the peaceful pool: every move of the pacifist's second
/// pool is in the semi-pacifist's, the moves added are those in which a pawn takes a pawn short
/// of checkmate, and the pool grows exactly when there is such a move.
pub proof fn lemma_semi_pacifist_widens_peaceful_tier(turns: Seq<ClassifiedMoveView>)
    ensures
        peaceful_tier(turns, false).subset_of(peaceful_tier(turns, true)),
        peaceful_tier(turns, true).difference(peaceful_tier(turns, false)) == matching(
            turns,
            TurnFilter::PawnTakesPawn,
        ),
        peaceful_tier(turns, true) != peaceful_tier(turns, false) <==> inhabited(
            matching(turns, TurnFilter::PawnTakesPawn),
        ),
{
    let narrow = peaceful_tier(turns, false);
    let wide = peaceful_tier(turns, true);
    let added = matching(turns, TurnFilter::PawnTakesPawn);
    assert(wide.difference(narrow) =~= added);
    if inhabited(added) {
        let i = choose|i: int| added.contains(i);
        assert(wide.contains(i) && !narrow.contains(i));
    } else {
        assert(wide =~= narrow);
    }
}

/// The quiet pool lies within the peaceful pool: a quiet move takes nothing.
pub proof fn lemma_gated_quiet_is_peaceful(
    turns: Seq<ClassifiedMoveView>,
    pawns_can_attack_pawns: bool,
)
    ensures
        gated_quiet(turns).subset_of(peaceful_tier(turns, pawns_can_attack_pawns)),
{
}

/// Randomly choose any turn of a position with `count` legal moves
pub fn find_random_turn(count: usize) -> (chosen: usize)
    requires
        count > 0,
    ensures
        chosen < count,
{
    let pool = all_turns(count);
    let chosen = pick(&pool);
    proof {
        let k = choose|k: int| 0 <= k < pool@.len() && pool@[k] == chosen;
        assert(all_positions(count as nat)[k] == k);
    }
    chosen
}

/// Randomly choose any turn that will harm other player
///
/// Where a turn mates, the chosen turn mates.
pub fn find_aggressive_turn(turns: &Vec<ClassifiedMove>) -> (chosen: usize)
    requires
        turns@.len() > 0,
    ensures
        chosen < turns@.len(),
        aggressive_pool(views(turns@)).contains(chosen as int),
        (exists|i: int| 0 <= i < turns@.len() && turns[i].is_checkmate)
            ==> turns[chosen as int].is_checkmate,
{
    let pool = aggressive_candidates(turns);
    proof {
        Player::Aggressive.lemma_candidates_are_moves(views(turns@));
        lemma_listed_inhabited(pool@, aggressive_pool(views(turns@)));
    }
    let chosen = pick(&pool);
    proof {
        assert(aggressive_pool(views(turns@)).contains(chosen as int));
        if exists|i: int| 0 <= i < turns@.len() && turns[i].is_checkmate {
            let i = choose|i: int| 0 <= i < turns@.len() && turns[i].is_checkmate;
            assert(views(turns@)[i].is_checkmate);
            lemma_aggressive_takes_checkmate(views(turns@), chosen as int);
        }
    }
    chosen
}

/// Randomly decide the most peaceful turn
///
/// Where a turn mates and takes nothing, the chosen turn mates and takes nothing.
pub fn find_pieceful_turn(turns: &Vec<ClassifiedMove>, pawns_can_attack_pawns: bool) -> (chosen:
    usize)
    requires
        turns@.len() > 0,
    ensures
        chosen < turns@.len(),
        pieceful_pool(views(turns@), pawns_can_attack_pawns).contains(chosen as int),
        (exists|i: int| 0 <= i < turns@.len() && turns[i].is_checkmate && !turns[i].is_capture)
            ==> turns[chosen as int].is_checkmate && !turns[chosen as int].is_capture,
{
    let pool = pieceful_candidates(turns, pawns_can_attack_pawns);
    proof {
        if pawns_can_attack_pawns {
            Player::SemiPacifist.lemma_candidates_are_moves(views(turns@));
        } else {
            Player::Pacifist.lemma_candidates_are_moves(views(turns@));
        }
        lemma_listed_inhabited(pool@, pieceful_pool(views(turns@), pawns_can_attack_pawns));
    }
    let chosen = pick(&pool);
    proof {
        assert(pieceful_pool(views(turns@), pawns_can_attack_pawns).contains(chosen as int));
        if exists|i: int| 0 <= i < turns@.len() && turns[i].is_checkmate && !turns[i].is_capture {
            let i = choose|i: int|
                0 <= i < turns@.len() && turns[i].is_checkmate && !turns[i].is_capture;
            assert(views(turns@)[i].is_checkmate && !views(turns@)[i].is_capture);
            lemma_pacifist_takes_peaceful_checkmate(
                views(turns@),
                pawns_can_attack_pawns,
                chosen as int,
            );
        }
    }
    chosen
}

impl Player {
    /// The moves the player picks from, by position in the list of moves.
    pub open spec fn candidate_pool(self, turns: Seq<ClassifiedMoveView>) -> Set<int> {
        match self {
            Player::Random => matching(turns, TurnFilter::Any),
            Player::Aggressive => aggressive_pool(turns),
            Player::Pacifist => pieceful_pool(turns, false),
            Player::SemiPacifist => pieceful_pool(turns, true),
        }
    }

    /// While there is a move, the player has a candidate, and every candidate is a move.
    pub proof fn lemma_candidates_are_moves(self, turns: Seq<ClassifiedMoveView>)
        ensures
            turns.len() > 0 ==> inhabited(self.candidate_pool(turns)),
            forall|i: int| self.candidate_pool(turns).contains(i) ==> 0 <= i < turns.len(),
    {
        if turns.len() > 0 {
            assert(matching(turns, TurnFilter::Any).contains(0));
        }
    }

    /// The candidates of the player, each once.
    pub fn candidates(&self, turns: &Vec<ClassifiedMove>) -> (pool: Vec<usize>)
        ensures
            ascending(pool@),
            lists(pool@, self.candidate_pool(views(turns@))),
    {
        match self {
            Player::Random => {
                let count = turns.len();
                proof {
                    lemma_all_positions_listed(views(turns@));
                }
                all_turns(count)
            },
            Player::Aggressive => aggressive_candidates(turns),
            Player::SemiPacifist => pieceful_candidates(turns, PAWN_CAN_ATTACK_PAWNS),
            Player::Pacifist => pieceful_candidates(turns, !PAWN_CAN_ATTACK_PAWNS),
        }
    }

    /// `notation` is the notation of one of the player's candidates among `moves`.
    pub open spec fn may_play(self, moves: Seq<LegalMoveView>, notation: Seq<char>) -> bool {
        exists|i: int|
            0 <= i < moves.len() && self.candidate_pool(classified_all(moves)).contains(i)
                && (#[trigger] moves[i]).notation == notation
    }

    /// Picks the next turn among classified moves: the position of the chosen one.
    pub fn choose_turn(&self, turns: &Vec<ClassifiedMove>) -> (chosen: usize)
        requires
            turns@.len() > 0,
        ensures
            chosen < turns@.len(),
            self.candidate_pool(views(turns@)).contains(chosen as int),
    {
        proof {
            self.lemma_candidates_are_moves(views(turns@));
        }
        match self {
            Player::Random => find_random_turn(turns.len()),
            Player::Aggressive => find_aggressive_turn(turns),
            Player::SemiPacifist => find_pieceful_turn(turns, PAWN_CAN_ATTACK_PAWNS),
            Player::Pacifist => find_pieceful_turn(turns, !PAWN_CAN_ATTACK_PAWNS),
        }
    }

    /// Find next turn
    ///
    /// The turn is one of `moves`, taken from the first pool of the player that holds a move.
    ///
    /// The random player takes the moves as they come. The others read the notation of every
    /// move first, and fail where one is malformed, with the first such notation.
    pub fn decide_next_turn(&self, moves: &Vec<LegalMove>) -> (outcome: Result<
        String,
        MalformedNotation,
    >)
        requires
            moves@.len() > 0,
        ensures
            match outcome {
                Ok(notation) => {
                    &&& self.may_play(legal_views(moves@), notation@)
                    &&& *self != Player::Random ==> readable(legal_views(moves@))
                },
                Err(malformed) => {
                    &&& *self != Player::Random
                    &&& exists|k: int|
                        first_unreadable(legal_views(moves@), k) && malformed@ == (
                        #[trigger] moves[k]).notation@
                },
            },
    {
        let chosen = match self {
            Player::Random => find_random_turn(moves.len()),
            _ => {
                let turns = match classify_all(moves) {
                    Ok(turns) => turns,
                    Err(malformed) => {
                        return Err(malformed);
                    },
                };
                assert(turns@.len() == views(turns@).len());
                self.choose_turn(&turns)
            },
        };
        let notation = moves[chosen].notation.clone();
        assert(legal_views(moves@)[chosen as int].notation == notation@);
        assert(matching(classified_all(legal_views(moves@)), TurnFilter::Any).contains(
            chosen as int,
        ));
        Ok(notation)
    }
}

impl Player {
    /// The name of the mode.
    pub open spec fn token(self) -> Seq<char> {
        match self {
            Player::Random => "Random"@,
            Player::Aggressive => "Aggressive"@,
            Player::Pacifist => "Pacifist"@,
            Player::SemiPacifist => "SemiPacifist"@,
        }
    }

    /// No two modes share a name.
    pub proof fn lemma_token_injective(a: Player, b: Player)
        requires
            a.token() == b.token(),
        ensures
            a == b,
    {
        reveal_strlit("Random");
        reveal_strlit("Aggressive");
        reveal_strlit("Pacifist");
        reveal_strlit("SemiPacifist");
        assert("Random"@.len() == 6);
        assert("Aggressive"@.len() == 10);
        assert("Pacifist"@.len() == 8);
        assert("SemiPacifist"@.len() == 12);
    }

    /// The name of the mode, as `from_str` reads it.
    pub fn to_string(&self) -> (name: String)
        ensures
            name@ == self.token(),
    {
        match self {
            Player::Random => "Random".to_owned(),
            Player::Aggressive => "Aggressive".to_owned(),
            Player::Pacifist => "Pacifist".to_owned(),
            Player::SemiPacifist => "SemiPacifist".to_owned(),
        }
    }
}

impl std::str::FromStr for Player {
    type Err = &'static str;

    /// Reads the name of a mode.
    fn from_str(s: &str) -> (parsed: Result<Self, Self::Err>)
        ensures
            match parsed {
                Ok(player) => s@ == player.token(),
                Err(message) => {
                    &&& forall|p: Player| s@ != p.token()
                    &&& message@ == "Invalid player input"@
                },
            },
    {
        if same_text(s, "Random") {
            Ok(Player::Random)
        } else if same_text(s, "Aggressive") {
            Ok(Player::Aggressive)
        } else if same_text(s, "Pacifist") {
            Ok(Player::Pacifist)
        } else if same_text(s, "SemiPacifist") {
            Ok(Player::SemiPacifist)
        } else {
            Err("Invalid player input")
        }
    }
}

} // verus!
