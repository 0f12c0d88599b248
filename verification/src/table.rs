//! The game as a mathematical value: what a table holds, which tables can
//! arise, and the table that each accepted move leads to.

use vstd::prelude::*;
use anchor_lang::prelude::Pubkey;
use crate::state::{GameState, Role};
use crate::tally::first_max;

verus! {

/// The number of seats at a table.
pub const MAX_PLAYERS: usize = 4;

/// The deposit that a participant pays for a seat, in lamports. The host
/// collects it; no move of the game depends on it.
pub const STAKE_LAMPORTS: u64 = 1_000_000_000;

/// The state of one match.
///
/// `roles[i]` and `votes[i]` belong to `players[i]`.
pub struct Table {
    /// The participants still seated, in the order in which they joined.
    /// Nobody sits twice.
    pub players: Seq<Pubkey>,
    /// The role behind each seat; empty until the match starts.
    pub roles: Seq<Role>,
    /// The votes cast against each seat in the current round.
    pub votes: Seq<u8>,
    /// A counter of rounds that no move advances.
    pub turn: u8,
    /// The stage the match is in.
    pub state: GameState,
}

/// No identity occurs twice in `players`.
pub open spec fn all_different(players: Seq<Pubkey>) -> bool {
    forall|i: int, j: int| 0 <= i < j < players.len() ==> players[i] != players[j]
}

/// `n` vote counters, all at zero.
pub open spec fn no_votes(n: nat) -> Seq<u8> {
    Seq::new(n, |i: int| 0u8)
}

/// Seat `k` of `roles` is the culprit and every other seat is a citizen.
pub open spec fn sole_culprit_at(roles: Seq<Role>, k: int) -> bool {
    &&& 0 <= k < roles.len()
    &&& forall|j: int| 0 <= j < roles.len() ==> (roles[j] == Role::Culprit <==> j == k)
}

/// Exactly one seat of `roles` is the culprit.
pub open spec fn one_culprit(roles: Seq<Role>) -> bool {
    exists|k: int| sole_culprit_at(roles, k)
}

/// Somebody is left, and nobody but culprits.
pub open spec fn only_culprits(roles: Seq<Role>) -> bool {
    &&& roles.len() > 0
    &&& forall|j: int| 0 <= j < roles.len() ==> roles[j] == Role::Culprit
}

/// The roles of a full table whose culprit sits at seat `k`.
pub open spec fn casting(k: int) -> Seq<Role> {
    Seq::new(
        MAX_PLAYERS as nat,
        |i: int|
            if i == k {
                Role::Culprit
            } else {
                Role::Citizen
            },
    )
}

impl Table {
    /// The tables that a match can be in.
    ///
    /// At most four are seated and nobody sits twice. While the table waits,
    /// nobody has a role and four counters stand at zero. From the start on
    /// every seat has a role and a counter, and one seat is the culprit. A
    /// running match has at least two seats left; a finished one has its
    /// counters back at zero.
    pub open spec fn valid(self) -> bool {
        &&& self.players.len() <= MAX_PLAYERS
        &&& all_different(self.players)
        &&& match self.state {
            GameState::WaitingForPlayers => {
                &&& self.roles.len() == 0
                &&& self.votes == no_votes(MAX_PLAYERS as nat)
            },
            GameState::InProgress => {
                &&& self.players.len() >= 2
                &&& self.roles.len() == self.players.len()
                &&& self.votes.len() == self.players.len()
                &&& one_culprit(self.roles)
            },
            GameState::Finished => {
                &&& self.players.len() >= 1
                &&& self.roles.len() == self.players.len()
                &&& self.votes == no_votes(self.players.len())
                &&& one_culprit(self.roles)
            },
        }
    }

    /// The table of a match that was just created.
    pub open spec fn fresh() -> Table {
        Table {
            players: Seq::empty(),
            roles: Seq::empty(),
            votes: no_votes(MAX_PLAYERS as nat),
            turn: 0,
            state: GameState::WaitingForPlayers,
        }
    }

    /// The table still takes participants.
    pub open spec fn open_for_players(self) -> bool {
        self.state == GameState::WaitingForPlayers && self.players.len() < MAX_PLAYERS
    }

    /// The table gives `player` a seat: it still takes participants, and
    /// `player` is not seated yet.
    pub open spec fn seats(self, player: Pubkey) -> bool {
        self.open_for_players() && !self.players.contains(player)
    }

    /// The table after `player` took the next seat.
    pub open spec fn joined(self, player: Pubkey) -> Table {
        Table { players: self.players.push(player), ..self }
    }

    /// The table is full and the match has not begun.
    pub open spec fn ready_to_start(self) -> bool {
        self.state == GameState::WaitingForPlayers && self.players.len() == MAX_PLAYERS
    }

    /// The table after the match began with the culprit at seat `k`.
    pub open spec fn started(self, k: int) -> Table {
        Table { roles: casting(k), state: GameState::InProgress, ..self }
    }

    /// A vote against seat `target` counts.
    pub open spec fn takes_vote(self, target: int) -> bool {
        self.state == GameState::InProgress && 0 <= target < self.players.len()
    }

    /// A vote against seat `target` can be handed in: either it will be
    /// refused, or the counter of its seat is not yet at the largest value
    /// that a counter holds.
    pub open spec fn vote_fits(self, target: int) -> bool {
        self.takes_vote(target) ==> self.votes[target] < u8::MAX
    }

    /// The table after one more vote against seat `target`.
    pub open spec fn voted(self, target: int) -> Table
        recommends
            0 <= target < self.votes.len(),
            self.votes[target] < u8::MAX,
    {
        Table { votes: self.votes.update(target, (self.votes[target] + 1) as u8), ..self }
    }

    /// The side that has won: nobody while the match is not over, the culprit
    /// if the culprit alone is left, and the citizens otherwise.
    pub open spec fn winner(self) -> Option<Role> {
        if self.state != GameState::Finished {
            None
        } else if only_culprits(self.roles) {
            Some(Role::Culprit)
        } else {
            Some(Role::Citizen)
        }
    }

    /// The seat that the current round votes out.
    pub open spec fn suspect(self) -> int {
        first_max(self.votes)
    }

    /// The table after the current round was closed.
    ///
    /// Voting out the culprit ends the match with everybody still seated.
    /// Voting out a citizen removes that seat, and ends the match if the
    /// culprit alone is left. Either way the counters start again at zero,
    /// one for each seat that is left.
    pub open spec fn resolved(self) -> Table {
        let out: int = self.suspect();
        if self.roles[out] == Role::Culprit {
            Table {
                votes: no_votes(self.players.len()),
                state: GameState::Finished,
                ..self
            }
        } else {
            let left = self.roles.remove(out);
            Table {
                players: self.players.remove(out),
                roles: left,
                votes: no_votes(left.len()),
                state: if only_culprits(left) {
                    GameState::Finished
                } else {
                    GameState::InProgress
                },
                ..self
            }
        }
    }

    /// One call of a move, accepted or refused, can turn this table into
    /// `next`: nothing changed, or somebody new took a free seat, or the match
    /// started with the culprit at some seat, or a vote was counted, or a
    /// round was closed.
    pub open spec fn leads_to(self, next: Table) -> bool {
        ||| next == self
        ||| exists|player: Pubkey| self.seats(player) && next == #[trigger] self.joined(player)
        ||| self.ready_to_start() && exists|k: int|
            0 <= k < MAX_PLAYERS && next == #[trigger] self.started(k)
        ||| exists|target: int|
            self.takes_vote(target) && self.votes[target] < u8::MAX && next
                == #[trigger] self.voted(target)
        ||| self.state == GameState::InProgress && next == self.resolved()
    }
}

} // verus!
