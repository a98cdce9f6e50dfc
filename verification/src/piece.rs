//! Kinds of chess pieces.

use vstd::prelude::*;
use crate::text::same_text;

verus! {

/// Kind of a chess piece.
#[derive(Clone, Copy, Debug, PartialEq, Eq, Structural)]
pub enum PieceKind {
    King,
    Queen,
    Rook,
    Knight,
    Bishop,
    Pawn,
}

impl PieceKind {
    /// The English name of the kind, as rules engines spell it.
    pub open spec fn label(self) -> Seq<char> {
        match self {
            PieceKind::King => "King"@,
            PieceKind::Queen => "Queen"@,
            PieceKind::Rook => "Rook"@,
            PieceKind::Knight => "Knight"@,
            PieceKind::Bishop => "Bishop"@,
            PieceKind::Pawn => "Pawn"@,
        }
    }

    /// No two kinds share a name.
    pub proof fn lemma_label_injective(a: PieceKind, b: PieceKind)
        requires
            a.label() == b.label(),
        ensures
            a == b,
    {
        reveal_strlit("King");
        reveal_strlit("Queen");
        reveal_strlit("Rook");
        reveal_strlit("Knight");
        reveal_strlit("Bishop");
        reveal_strlit("Pawn");
        assert("King"@.len() == 4 && "King"@[0] == 'K');
        assert("Queen"@.len() == 5);
        assert("Rook"@.len() == 4 && "Rook"@[0] == 'R');
        assert("Knight"@.len() == 6 && "Knight"@[0] == 'K');
        assert("Bishop"@.len() == 6 && "Bishop"@[0] == 'B');
        assert("Pawn"@.len() == 4 && "Pawn"@[0] == 'P');
    }

    /// The kind that goes by `name`, if there is one.
    pub fn from_name(name: &str) -> (kind: Option<PieceKind>)
        ensures
            match kind {
                Some(k) => name@ == k.label(),
                None => forall|k: PieceKind| name@ != k.label(),
            },
    {
        if same_text(name, "King") {
            Some(PieceKind::King)
        } else if same_text(name, "Queen") {
            Some(PieceKind::Queen)
        } else if same_text(name, "Rook") {
            Some(PieceKind::Rook)
        } else if same_text(name, "Knight") {
            Some(PieceKind::Knight)
        } else if same_text(name, "Bishop") {
            Some(PieceKind::Bishop)
        } else if same_text(name, "Pawn") {
            Some(PieceKind::Pawn)
        } else {
            None
        }
    }
}

} // verus!
