//! Moves as the rules engine reports them, and what their notation says about them.

use vstd::prelude::*;
use chess_notation_parser::{Piece, Turn};
use crate::piece::PieceKind;
use crate::text::contains_char;

verus! {

/// A move the rules engine certifies as valid in the current position.
#[derive(Clone, Debug, PartialEq, Eq)]
pub struct LegalMove {
    /// The move in algebraic notation.
    pub notation: String,
    /// Kind of the piece the move removes from the board, if it removes one.
    pub captured: Option<PieceKind>,
}

/// Mathematical value of a [`LegalMove`].
pub struct LegalMoveView {
    pub notation: Seq<char>,
    pub captured: Option<PieceKind>,
}

impl View for LegalMove {
    type V = LegalMoveView;

    open spec fn view(&self) -> LegalMoveView {
        LegalMoveView { notation: self.notation@, captured: self.captured }
    }
}

/// What the notation of one turn says.
#[derive(Clone, Copy, Debug, PartialEq, Eq)]
pub struct ParsedTurn {
    /// Kind of the piece that moves. Castling names no piece.
    pub mover: Option<PieceKind>,
    /// The turn takes a piece.
    pub capture: bool,
    /// The turn gives check.
    pub check: bool,
    /// The turn gives checkmate.
    pub checkmate: bool,
}

/// A legal move together with the facts a strategy looks at.
#[derive(Clone, Debug, PartialEq, Eq)]
pub struct ClassifiedMove {
    /// The move in algebraic notation.
    pub notation: String,
    /// Kind of the piece that moves.
    pub mover_kind: PieceKind,
    /// The notation marks the move as a capture.
    pub is_capture: bool,
    /// The notation marks the move as a check.
    pub is_check: bool,
    /// The notation marks the move as a checkmate. The rules engine vouches for it.
    pub is_checkmate: bool,
    /// Kind of the piece the move removes from the board, as the rules engine reported it.
    pub captured_kind: Option<PieceKind>,
}

/// Mathematical value of a [`ClassifiedMove`].
pub struct ClassifiedMoveView {
    pub notation: Seq<char>,
    pub mover_kind: PieceKind,
    pub is_capture: bool,
    pub is_check: bool,
    pub is_checkmate: bool,
    pub captured_kind: Option<PieceKind>,
}

impl ClassifiedMoveView {
    /// A move is a capture exactly when a captured piece is recorded for it.
    ///
    /// The notation and the captured piece come from the rules engine separately; a move is well
    /// formed when the two agree.
    pub open spec fn well_formed(self) -> bool {
        self.is_capture <==> self.captured_kind is Some
    }
}

impl View for ClassifiedMove {
    type V = ClassifiedMoveView;

    open spec fn view(&self) -> ClassifiedMoveView {
        ClassifiedMoveView {
            notation: self.notation@,
            mover_kind: self.mover_kind,
            is_capture: self.is_capture,
            is_check: self.is_check,
            is_checkmate: self.is_checkmate,
            captured_kind: self.captured_kind,
        }
    }
}

/// The values of a list of classified moves.
pub open spec fn views(turns: Seq<ClassifiedMove>) -> Seq<ClassifiedMoveView> {
    turns.map_values(|m: ClassifiedMove| m@)
}

/// A move whose notation is not algebraic chess notation.
#[derive(Clone, Debug, PartialEq, Eq)]
pub struct MalformedNotation {
    /// The offending notation.
    pub notation: String,
}

impl View for MalformedNotation {
    type V = Seq<char>;

    open spec fn view(&self) -> Seq<char> {
        self.notation@
    }
}

/// What `chess_notation_parser` makes of a notation: `None` where it rejects the text, else the
/// piece and the flags of the turn it parsed.
pub uninterp spec fn parsed_notation(notation: Seq<char>) -> Option<ParsedTurn>;

/// A castling turn cannot take a piece: text with both markers is never a notation.
pub open spec fn castles_with_capture(notation: Seq<char>) -> bool {
    notation.contains('-') && notation.contains('x')
}

/// What a notation says: nothing where it is malformed, else what the parser reads in it.
pub open spec fn parse_outcome(notation: Seq<char>) -> Option<ParsedTurn> {
    if castles_with_capture(notation) {
        None
    } else {
        parsed_notation(notation)
    }
}

/// The markers of algebraic notation decide the flags of a parsed turn: `x` marks a capture, `+`
/// a check, `#` a checkmate, and `-` occurs in castling only.
pub open spec fn follows_markers(notation: Seq<char>, parsed: ParsedTurn) -> bool {
    &&& parsed.capture == notation.contains('x')
    &&& parsed.check == notation.contains('+')
    &&& parsed.checkmate == (notation.contains('#') && !notation.contains('+'))
    &&& (parsed.mover is None) == notation.contains('-')
}

/// Calls `Turn::try_from` of `chess_notation_parser` and copies out of the parsed turn the
/// moving piece (`who`; castling has none) and what `is_capture`, `is_check` and `is_checkmate`
/// say.
///
/// Trusted: the result depends on the text alone, and where the text is accepted the flags
/// follow its markers (the parser sets the capture flag when the text holds `x`, the check flag
/// when it holds `+`, else the checkmate flag when it holds `#`, and takes the castling branch
/// when it holds `-`). The parser panics on castling text that holds `x`, which is left out.
#[verifier::external_body]
fn parse_turn(notation: &str) -> (parsed: Option<ParsedTurn>)
    requires
        !castles_with_capture(notation@),
    ensures
        parsed == parsed_notation(notation@),
        parsed matches Some(turn) ==> follows_markers(notation@, turn),
{
    let turn = Turn::try_from(notation).ok()?;
    let mover = match &turn {
        Turn::Castling(_) => None,
        Turn::Move(m) => Some(match m.who {
            Piece::King => PieceKind::King,
            Piece::Queen => PieceKind::Queen,
            Piece::Rook => PieceKind::Rook,
            Piece::Knight => PieceKind::Knight,
            Piece::Bishop => PieceKind::Bishop,
            Piece::Pawn => PieceKind::Pawn,
        }),
    };
    let (capture, check, checkmate) = (turn.is_capture(), turn.is_check(), turn.is_checkmate());
    Some(ParsedTurn { mover, capture, check, checkmate })
}

/// Reads a notation: the piece that moves and the capture, check and checkmate flags, or `None`
/// where the text is malformed.
pub fn parse_notation(notation: &str) -> (parsed: Option<ParsedTurn>)
    ensures
        parsed == parse_outcome(notation@),
        parsed matches Some(turn) ==> follows_markers(notation@, turn),
{
    if contains_char(notation, '-') && contains_char(notation, 'x') {
        None
    } else {
        parse_turn(notation)
    }
}

/// The classified form of a move whose notation reads as `parsed`.
///
/// Castling is a move of the king.
pub open spec fn classified(
    notation: Seq<char>,
    parsed: ParsedTurn,
    captured: Option<PieceKind>,
) -> ClassifiedMoveView {
    ClassifiedMoveView {
        notation,
        mover_kind: match parsed.mover {
            Some(kind) => kind,
            None => PieceKind::King,
        },
        is_capture: parsed.capture,
        is_check: parsed.check,
        is_checkmate: parsed.checkmate,
        captured_kind: captured,
    }
}

/// `outcome` is what classifying a move gives when its notation reads as `parsed`: the classified
/// move, or the notation back as malformed where nothing was read.
pub open spec fn is_classification(
    outcome: Result<ClassifiedMove, MalformedNotation>,
    notation: Seq<char>,
    parsed: Option<ParsedTurn>,
    captured: Option<PieceKind>,
) -> bool {
    match outcome {
        Ok(turn) => parsed matches Some(p) && turn@ == classified(notation, p, captured),
        Err(malformed) => parsed is None && malformed@ == notation,
    }
}

/// Classifying is a function of its inputs: two outcomes for the same notation and the same
/// captured piece hold the same values.
pub proof fn lemma_classification_unique(
    first: Result<ClassifiedMove, MalformedNotation>,
    second: Result<ClassifiedMove, MalformedNotation>,
    notation: Seq<char>,
    captured: Option<PieceKind>,
)
    requires
        is_classification(first, notation, parse_outcome(notation), captured),
        is_classification(second, notation, parse_outcome(notation), captured),
    ensures
        first is Ok <==> second is Ok,
        first is Ok ==> first->Ok_0@ == second->Ok_0@,
        first is Err ==> first->Err_0@ == second->Err_0@,
{
}

/// Classifies a move from what its notation was read as.
pub fn classify_parsed(
    notation: &str,
    parsed: Option<ParsedTurn>,
    captured: Option<PieceKind>,
) -> (outcome: Result<ClassifiedMove, MalformedNotation>)
    ensures
        is_classification(outcome, notation@, parsed, captured),
{
    match parsed {
        Some(turn) => Ok(
            ClassifiedMove {
                notation: notation.to_owned(),
                mover_kind: match turn.mover {
                    Some(kind) => kind,
                    None => PieceKind::King,
                },
                is_capture: turn.capture,
                is_check: turn.check,
                is_checkmate: turn.checkmate,
                captured_kind: captured,
            },
        ),
        None => Err(MalformedNotation { notation: notation.to_owned() }),
    }
}

/// Classifies one legal move: reads the flags and the moving piece out of its notation and keeps
/// the captured piece the rules engine reported.
///
/// Fails exactly when the notation is malformed. The result is well formed when the capture
/// marker of the notation and the reported piece agree.
pub fn classify(notation: &str, captured: Option<PieceKind>) -> (outcome: Result<
    ClassifiedMove,
    MalformedNotation,
>)
    ensures
        is_classification(outcome, notation@, parse_outcome(notation@), captured),
        outcome matches Ok(turn) ==> {
            &&& turn.is_capture == notation@.contains('x')
            &&& turn.is_check == notation@.contains('+')
            &&& turn.is_checkmate == (notation@.contains('#') && !notation@.contains('+'))
            &&& (turn@.well_formed() <==> (notation@.contains('x') <==> captured is Some))
        },
{
    classify_parsed(notation, parse_notation(notation), captured)
}

/// The values of a list of legal moves.
pub open spec fn legal_views(moves: Seq<LegalMove>) -> Seq<LegalMoveView> {
    moves.map_values(|m: LegalMove| m@)
}

/// The notation of each of the first `n` moves can be read.
pub open spec fn readable_upto(moves: Seq<LegalMoveView>, n: int) -> bool {
    forall|j: int| 0 <= j < n ==> parse_outcome((#[trigger] moves[j]).notation) is Some
}

/// The notation of every move can be read.
pub open spec fn readable(moves: Seq<LegalMoveView>) -> bool {
    readable_upto(moves, moves.len() as int)
}

/// Move `k` is the first whose notation is malformed.
pub open spec fn first_unreadable(moves: Seq<LegalMoveView>, k: int) -> bool {
    &&& 0 <= k < moves.len()
    &&& readable_upto(moves, k)
    &&& parse_outcome(moves[k].notation) is None
}

/// The classified form of a legal move whose notation can be read.
pub open spec fn classification(legal: LegalMoveView) -> ClassifiedMoveView {
    classified(legal.notation, parse_outcome(legal.notation)->Some_0, legal.captured)
}

/// The classified forms of the moves of a position, in the same order.
pub open spec fn classified_all(moves: Seq<LegalMoveView>) -> Seq<ClassifiedMoveView> {
    moves.map_values(|legal: LegalMoveView| classification(legal))
}

/// Classifies every legal move of a position, once.
///
/// Fails on the first move whose notation is malformed, and with that notation.
pub fn classify_all(moves: &Vec<LegalMove>) -> (outcome: Result<
    Vec<ClassifiedMove>,
    MalformedNotation,
>)
    ensures
        match outcome {
            Ok(turns) => {
                &&& readable(legal_views(moves@))
                &&& views(turns@) == classified_all(legal_views(moves@))
            },
            Err(malformed) => exists|k: int|
                first_unreadable(legal_views(moves@), k) && malformed@ == (
                #[trigger] moves[k]).notation@,
        },
{
    let mut turns: Vec<ClassifiedMove> = Vec::new();
    let mut i: usize = 0;
    while i < moves.len()
        invariant
            i <= moves.len(),
            turns.len() == i,
            readable_upto(legal_views(moves@), i as int),
            forall|j: int|
                0 <= j < i ==> (#[trigger] turns[j])@ == classification(legal_views(moves@)[j]),
        decreases moves.len() - i,
    {
        let legal = &moves[i];
        assert(legal_views(moves@)[i as int] == legal@);
        match classify(legal.notation.as_str(), legal.captured) {
            Ok(turn) => {
                turns.push(turn);
            },
            Err(malformed) => {
                assert(first_unreadable(legal_views(moves@), i as int));
                return Err(malformed);
            },
        }
        i += 1;
    }
    assert(views(turns@) =~= classified_all(legal_views(moves@)));
    Ok(turns)
}

} // verus!
