//! A match, and the five moves that its host can make on it.

use vstd::prelude::*;
use anchor_lang::prelude::Pubkey;
use crate::chance::random_below;
use crate::identity::same_identity;
use crate::laws::{
    lemma_joined_valid, lemma_resolved_valid, lemma_started_valid, lemma_suspect_is_seated,
};
use crate::state::{CustomError, GameState, Role};
use crate::table::{
    all_different, casting, no_votes, one_culprit, only_culprits, sole_culprit_at, Table,
    MAX_PLAYERS,
};
use crate::tally::most_voted;

verus! {

/// One match.
///
/// Its value is a [`Table`], and every `Game` is a table that can arise, as
/// [`Table::valid`] says: no move leads out of these tables, and
/// [`Game::from_parts`] accepts no others.
pub struct Game {
    players: Vec<Pubkey>,
    roles: Vec<Role>,
    votes: Vec<u8>,
    turn: u8,
    state: GameState,
}

impl View for Game {
    type V = Table;

    closed spec fn view(&self) -> Table {
        Table {
            players: self.players@,
            roles: self.roles@,
            votes: self.votes@,
            turn: self.turn,
            state: self.state,
        }
    }
}

/// Creates a match that waits for its participants: nobody is seated, nobody
/// has a role, and four counters stand at zero.
pub fn initialize() -> (game: Game)
    ensures
        game@ == Table::fresh(),
        game@.valid(),
{
    Game {
        players: Vec::new(),
        roles: Vec::new(),
        votes: zeroed(MAX_PLAYERS),
        turn: 0,
        state: GameState::WaitingForPlayers,
    }
}

/// Seats `player` at the table.
///
/// The table gives a seat while the match waits and a seat is free, to
/// anybody who is not seated yet. In every other case the call is refused
/// and nothing changes. The refusal is `GameFull`, also for somebody who is
/// seated already: there is no second seat for them. So for somebody new at a
/// waiting table `GameFull` means that four are seated. Collecting the
/// participant's stake is the host's business, and the host records the new
/// table only once it has the stake.
pub fn join_game(game: &mut Game, player: Pubkey) -> (r: Result<(), CustomError>)
    ensures
        old(game)@.seats(player) ==> r is Ok && final(game)@ == old(game)@.joined(player),
        !old(game)@.seats(player) ==> r == Err::<(), CustomError>(CustomError::GameFull)
            && final(game)@ == old(game)@,
        old(game)@.state == GameState::WaitingForPlayers && !old(game)@.players.contains(player)
            ==> (r is Err <==> old(game)@.players.len() == MAX_PLAYERS),
        final(game)@.players.len() <= MAX_PLAYERS,
        all_different(final(game)@.players),
        final(game)@.valid(),
        old(game)@.leads_to(final(game)@),
{
    proof {
        use_type_invariant(&*game);
    }
    if game.state != GameState::WaitingForPlayers || game.players.len() >= MAX_PLAYERS {
        return Err(CustomError::GameFull);
    }
    if is_seated(&game.players, &player) {
        return Err(CustomError::GameFull);
    }
    proof {
        lemma_joined_valid(game@, player);
    }
    let Game { mut players, roles, votes, turn, state } = take(game);
    players.push(player);
    *game = Game { players, roles, votes, turn, state };
    Ok(())
}

/// Starts the match and lets chance pick the culprit's seat.
///
/// The match starts only from a full table that still waits. In every other
/// case the call is refused with `NotEnoughPlayers`, nothing changes and
/// nothing is drawn. On success one of the four seats, whichever was drawn,
/// is the culprit, the three other seats are citizens, and the match is
/// running: the table is the one that [`start_game_with`] gives for the seat
/// that was drawn.
pub fn start_game(game: &mut Game) -> (r: Result<(), CustomError>)
    ensures
        old(game)@.ready_to_start() ==> r is Ok
            && exists|k: int|
            0 <= k < MAX_PLAYERS && final(game)@ == #[trigger] old(game)@.started(k),
        !old(game)@.ready_to_start() ==> r == Err::<(), CustomError>(CustomError::NotEnoughPlayers)
            && final(game)@ == old(game)@,
        old(game)@.state == GameState::WaitingForPlayers ==> (r is Ok <==> old(game)@.players.len()
            == MAX_PLAYERS),
        r is Ok ==> one_culprit(final(game)@.roles) && final(game)@.roles.len() == MAX_PLAYERS
            && final(game)@.state == GameState::InProgress,
        final(game)@.valid(),
        old(game)@.leads_to(final(game)@),
{
    proof {
        use_type_invariant(&*game);
    }
    if game.state != GameState::WaitingForPlayers || game.players.len() != MAX_PLAYERS {
        return Err(CustomError::NotEnoughPlayers);
    }
    let culprit_seat: usize = random_below(MAX_PLAYERS);
    start_game_with(game, culprit_seat)
}

/// Starts the match with the culprit at seat `culprit_seat`.
///
/// The match starts only from a full table that still waits. In every other
/// case the call is refused with `NotEnoughPlayers` and nothing changes.
/// On success seat `culprit_seat` is the culprit, the three other seats are
/// citizens, and the match is running.
pub fn start_game_with(game: &mut Game, culprit_seat: usize) -> (r: Result<(), CustomError>)
    requires
        culprit_seat < MAX_PLAYERS,
    ensures
        old(game)@.ready_to_start() ==> r is Ok
            && final(game)@ == old(game)@.started(culprit_seat as int),
        !old(game)@.ready_to_start() ==> r == Err::<(), CustomError>(CustomError::NotEnoughPlayers)
            && final(game)@ == old(game)@,
        old(game)@.state == GameState::WaitingForPlayers ==> (r is Ok <==> old(game)@.players.len()
            == MAX_PLAYERS),
        r is Ok ==> sole_culprit_at(final(game)@.roles, culprit_seat as int)
            && final(game)@.state == GameState::InProgress,
        final(game)@.valid(),
        old(game)@.leads_to(final(game)@),
{
    proof {
        use_type_invariant(&*game);
    }
    if game.state != GameState::WaitingForPlayers || game.players.len() != MAX_PLAYERS {
        return Err(CustomError::NotEnoughPlayers);
    }
    proof {
        lemma_started_valid(game@, culprit_seat as int);
    }
    let Game { players, roles: _, votes, turn, state: _ } = take(game);
    let mut roles: Vec<Role> = vec![Role::Citizen; MAX_PLAYERS];
    roles[culprit_seat] = Role::Culprit;
    assert(roles@ =~= casting(culprit_seat as int));
    *game = Game { players, roles, votes, turn, state: GameState::InProgress };
    Ok(())
}

/// Counts one vote against the seat `vote_for`.
///
/// Outside a running match the call is refused with `GameNotInProgress`. In
/// a running match a vote against a seat that the table does not have is
/// refused with `InvalidVote`. A refused vote changes nothing. A vote that
/// counts raises the counter of its seat by one. A counter holds no more than
/// 255 votes: a vote that counts must find its counter below that, which
/// [`Game::vote_fits`] tells beforehand.
pub fn vote_player(game: &mut Game, vote_for: u8) -> (r: Result<(), CustomError>)
    requires
        old(game)@.vote_fits(vote_for as int),
    ensures
        old(game)@.state != GameState::InProgress ==> r == Err::<(), CustomError>(
            CustomError::GameNotInProgress,
        ),
        old(game)@.state == GameState::InProgress && vote_for as int >= old(game)@.players.len()
            ==> r == Err::<(), CustomError>(CustomError::InvalidVote),
        old(game)@.takes_vote(vote_for as int) ==> r is Ok
            && final(game)@ == old(game)@.voted(vote_for as int)
            && final(game)@.votes[vote_for as int] == old(game)@.votes[vote_for as int] + 1,
        vote_for as int >= old(game)@.players.len() ==> r is Err,
        r is Err ==> final(game)@ == old(game)@,
        final(game)@.valid(),
        old(game)@.leads_to(final(game)@),
{
    proof {
        use_type_invariant(&*game);
    }
    if game.state != GameState::InProgress {
        return Err(CustomError::GameNotInProgress);
    }
    let target: usize = vote_for as usize;
    if target >= game.players.len() {
        return Err(CustomError::InvalidVote);
    }
    let count: u8 = game.votes[target];
    game.votes[target] = count + 1;
    Ok(())
}

/// Closes the current round.
///
/// Outside a running match the call is refused with `GameNotInProgress` and
/// nothing changes; in particular a finished match stays as it is. In a
/// running match the seat with the most votes is voted out, the lowest such
/// seat on a tie. If that seat is the culprit, the match is over and everybody
/// keeps their seat. Otherwise the seat is removed, and the match is over if
/// the culprit alone is left. In both cases the counters start again at zero,
/// one for each seat that is left.
pub fn end_round(game: &mut Game) -> (r: Result<(), CustomError>)
    ensures
        old(game)@.state == GameState::InProgress ==> r is Ok
            && final(game)@ == old(game)@.resolved(),
        old(game)@.state != GameState::InProgress ==> r == Err::<(), CustomError>(
            CustomError::GameNotInProgress,
        ) && final(game)@ == old(game)@,
        r is Ok ==> final(game)@.votes == no_votes(final(game)@.players.len()),
        final(game)@.valid(),
        old(game)@.leads_to(final(game)@),
{
    proof {
        use_type_invariant(&*game);
    }
    if game.state != GameState::InProgress {
        return Err(CustomError::GameNotInProgress);
    }
    proof {
        lemma_suspect_is_seated(game@);
        lemma_resolved_valid(game@);
    }
    let out: usize = most_voted(&game.votes);
    if game.roles[out] == Role::Culprit {
        game.votes = zeroed(game.players.len());
        game.state = GameState::Finished;
    } else {
        let Game { mut players, mut roles, votes: _, turn, state: _ } = take(game);
        players.remove(out);
        roles.remove(out);
        let votes: Vec<u8> = zeroed(players.len());
        let state: GameState = if culprit_alone(&roles) {
            GameState::Finished
        } else {
            GameState::InProgress
        };
        *game = Game { players, roles, votes, turn, state };
    }
    Ok(())
}

impl Game {
    #[verifier::type_invariant]
    spec fn well_formed(self) -> bool {
        self@.valid()
    }

    /// Puts a match together from its parts, as a host does that keeps them
    /// in a store of its own. The answer is `None` exactly when the parts
    /// make no table that can arise: among others, when an identity occurs
    /// twice.
    pub fn from_parts(
        players: Vec<Pubkey>,
        roles: Vec<Role>,
        votes: Vec<u8>,
        turn: u8,
        state: GameState,
    ) -> (game: Option<Game>)
        ensures
            game is Some <==> (Table {
                players: players@,
                roles: roles@,
                votes: votes@,
                turn,
                state,
            }).valid(),
            game is Some ==> game.unwrap()@ == (Table {
                players: players@,
                roles: roles@,
                votes: votes@,
                turn,
                state,
            }),
    {
        let seats: usize = players.len();
        if seats > MAX_PLAYERS || !no_two_alike(&players) {
            return None;
        }
        let fits: bool = match state {
            GameState::WaitingForPlayers => {
                roles.len() == 0 && votes.len() == MAX_PLAYERS && all_zero(&votes)
            },
            GameState::InProgress => {
                seats >= 2 && roles.len() == seats && votes.len() == seats && single_culprit(
                    &roles,
                )
            },
            GameState::Finished => {
                seats >= 1 && roles.len() == seats && votes.len() == seats && all_zero(&votes)
                    && single_culprit(&roles)
            },
        };
        if fits {
            Some(Game { players, roles, votes, turn, state })
        } else {
            None
        }
    }

    /// The participants still seated, in the order in which they joined.
    pub fn players(&self) -> (players: &Vec<Pubkey>)
        ensures
            players@ == self@.players,
            self@.valid(),
    {
        proof {
            use_type_invariant(self);
        }
        &self.players
    }

    /// The role behind each seat.
    pub fn roles(&self) -> (roles: &Vec<Role>)
        ensures
            roles@ == self@.roles,
            self@.valid(),
    {
        proof {
            use_type_invariant(self);
        }
        &self.roles
    }

    /// The votes cast against each seat in the current round.
    pub fn votes(&self) -> (votes: &Vec<u8>)
        ensures
            votes@ == self@.votes,
            self@.valid(),
    {
        proof {
            use_type_invariant(self);
        }
        &self.votes
    }

    /// The round counter.
    pub fn turn(&self) -> (turn: u8)
        ensures
            turn == self@.turn,
            self@.valid(),
    {
        proof {
            use_type_invariant(self);
        }
        self.turn
    }

    /// The stage the match is in.
    pub fn state(&self) -> (state: GameState)
        ensures
            state == self@.state,
            self@.valid(),
    {
        proof {
            use_type_invariant(self);
        }
        self.state
    }

    /// Tells whether a vote against the seat `vote_for` can be handed in:
    /// either it will be refused, or the counter of its seat has room for it.
    pub fn vote_fits(&self, vote_for: u8) -> (fits: bool)
        ensures
            fits == self@.vote_fits(vote_for as int),
            self@.valid(),
    {
        proof {
            use_type_invariant(self);
        }
        let target: usize = vote_for as usize;
        self.state != GameState::InProgress || target >= self.players.len() || self.votes[target]
            < u8::MAX
    }

    /// The side that has won: nobody while the match is not over, the culprit
    /// if the culprit alone is left, and the citizens otherwise.
    pub fn winner(&self) -> (winner: Option<Role>)
        ensures
            winner == self@.winner(),
            self@.valid(),
    {
        proof {
            use_type_invariant(self);
        }
        if self.state != GameState::Finished {
            None
        } else if culprit_alone(&self.roles) {
            Some(Role::Culprit)
        } else {
            Some(Role::Citizen)
        }
    }
}

/// Tells whether `player` is among `players`.
pub fn is_seated(players: &Vec<Pubkey>, player: &Pubkey) -> (found: bool)
    ensures
        found == players@.contains(*player),
{
    let mut i: usize = 0;
    while i < players.len()
        invariant
            i <= players@.len(),
            forall|j: int| 0 <= j < i ==> players@[j] != *player,
        decreases players@.len() - i,
    {
        if same_identity(&players[i], player) {
            assert(players@[i as int] == *player);
            return true;
        }
        i += 1;
    }
    false
}

/// Tells whether no identity occurs twice in `players`.
fn no_two_alike(players: &Vec<Pubkey>) -> (different: bool)
    ensures
        different == all_different(players@),
{
    let mut j: usize = 0;
    while j < players.len()
        invariant
            j <= players@.len(),
            forall|a: int, b: int| 0 <= a < b < j ==> players@[a] != players@[b],
        decreases players@.len() - j,
    {
        let mut i: usize = 0;
        while i < j
            invariant
                i <= j < players@.len(),
                forall|a: int| 0 <= a < i ==> players@[a] != players@[j as int],
            decreases j - i,
        {
            if same_identity(&players[i], &players[j]) {
                assert(players@[i as int] == players@[j as int]);
                return false;
            }
            i += 1;
        }
        j += 1;
    }
    true
}

/// Moves the match out from behind the reference so that its parts can be
/// changed together. A newly created match stands in until the caller writes
/// the next state back.
fn take(game: &mut Game) -> (taken: Game)
    ensures
        taken == *old(game),
{
    let mut taken = initialize();
    std::mem::swap(game, &mut taken);
    taken
}

/// Makes `n` vote counters, all at zero.
fn zeroed(n: usize) -> (votes: Vec<u8>)
    ensures
        votes@ == no_votes(n as nat),
{
    let votes: Vec<u8> = vec![0u8; n];
    assert(votes@ =~= no_votes(n as nat));
    votes
}

/// Tells whether every counter stands at zero.
fn all_zero(votes: &Vec<u8>) -> (zero: bool)
    ensures
        zero == (votes@ == no_votes(votes@.len())),
{
    let mut i: usize = 0;
    while i < votes.len()
        invariant
            i <= votes@.len(),
            forall|j: int| 0 <= j < i ==> votes@[j] == 0,
        decreases votes@.len() - i,
    {
        if votes[i] != 0 {
            assert(no_votes(votes@.len())[i as int] == 0);
            return false;
        }
        i += 1;
    }
    assert(votes@ =~= no_votes(votes@.len()));
    true
}

/// Tells whether somebody is left and every role left is the culprit's.
fn culprit_alone(roles: &Vec<Role>) -> (alone: bool)
    ensures
        alone == only_culprits(roles@),
{
    let mut i: usize = 0;
    while i < roles.len()
        invariant
            i <= roles@.len(),
            forall|j: int| 0 <= j < i ==> roles@[j] == Role::Culprit,
        decreases roles@.len() - i,
    {
        if roles[i] != Role::Culprit {
            return false;
        }
        i += 1;
    }
    roles.len() > 0
}

/// Tells whether exactly one of the roles is the culprit's.
fn single_culprit(roles: &Vec<Role>) -> (single: bool)
    ensures
        single == one_culprit(roles@),
{
    let mut found: bool = false;
    let mut at: usize = 0;
    let mut i: usize = 0;
    while i < roles.len()
        invariant
            i <= roles@.len(),
            !found ==> forall|j: int| 0 <= j < i ==> roles@[j] != Role::Culprit,
            found ==> at < i && forall|j: int|
                0 <= j < i ==> (roles@[j] == Role::Culprit <==> j == at),
        decreases roles@.len() - i,
    {
        if roles[i] == Role::Culprit {
            if found {
                assert forall|k: int| !sole_culprit_at(roles@, k) by {
                    if sole_culprit_at(roles@, k) {
                        assert(roles@[at as int] == Role::Culprit);
                        assert(roles@[i as int] == Role::Culprit);
                    }
                }
                return false;
            }
            found = true;
            at = i;
        }
        i += 1;
    }
    proof {
        if found {
            assert(sole_culprit_at(roles@, at as int));
        } else {
            assert forall|k: int| !sole_culprit_at(roles@, k) by {
                if sole_culprit_at(roles@, k) {
                    assert(roles@[k] == Role::Culprit);
                }
            }
        }
    }
    found
}

} // verus!
