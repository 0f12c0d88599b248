//! A four-seat social-deduction elimination game: one hidden culprit, three
//! citizens, rounds of voting, and the rules that decide who wins.
//!
//! [`Game`] is one match. Its host creates it with [`initialize`], seats
//! participants with [`join_game`], starts it with [`start_game`], counts
//! votes with [`vote_player`] and closes each round with [`end_round`].
//! Every move is described by the [`Table`] it leads to.

mod chance;
pub mod game;
pub mod identity;
pub mod laws;
pub mod state;
pub mod table;
pub mod tally;

pub use game::{
    end_round, initialize, is_seated, join_game, start_game, start_game_with, vote_player, Game,
};
pub use state::{CustomError, GameState, Role};
pub use table::{Table, MAX_PLAYERS, STAKE_LAMPORTS};
pub use tally::most_voted;
