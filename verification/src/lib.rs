//! Decision and presentation layer of an automated chess demonstration.
//!
//! * [`player`] chooses one move out of the legal moves of a position, following one of four
//!   strategies that look a single move ahead.
//! * [`turn`] reads the notation of a legal move into the facts the strategies look at.
//! * [`selection`] sorts the moves of a position into candidate pools.
//! * [`chance`] picks from a pool at random.
//! * [`game_animator`] turns one frame duration into the timed sequence of steps that shows a
//!   move being played.
//! * [`piece`] and [`text`] hold the kinds of pieces and small helpers on text.
//!
//! The rules of chess are not part of this crate: legal moves come in as plain values and the
//! chosen move goes out as its notation. Nothing here prints or sleeps: an animation is handed
//! out as the list of steps to perform.

pub mod chance;
pub mod game_animator;
pub mod piece;
pub mod player;
pub mod selection;
pub mod text;
pub mod turn;
