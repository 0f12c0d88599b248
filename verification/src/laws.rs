//! What holds of every table and every move.

use vstd::prelude::*;
use anchor_lang::prelude::Pubkey;
use crate::state::{GameState, Role};
use crate::table::{
    all_different, casting, no_votes, one_culprit, only_culprits, sole_culprit_at, Table,
    MAX_PLAYERS,
};
use crate::tally::{is_first_max, lemma_first_max_exists};

verus! {

/// A table that was just created can arise.
pub proof fn lemma_fresh_valid()
    ensures
        Table::fresh().valid(),
{
}

/// Seating somebody new at a table that takes participants gives a table
/// that can arise: at most four seats are taken, and still nobody sits twice.
pub proof fn lemma_joined_valid(t: Table, player: Pubkey)
    requires
        t.valid(),
        t.seats(player),
    ensures
        t.joined(player).valid(),
        t.joined(player).players.len() <= MAX_PLAYERS,
        all_different(t.joined(player).players),
        t.joined(player).state == t.state,
{
    let seated: Seq<Pubkey> = t.joined(player).players;
    assert forall|i: int, j: int| 0 <= i < j < seated.len() implies seated[i] != seated[j] by {
        if j == t.players.len() {
            assert(t.players[i] == seated[i]);
            assert(!t.players.contains(player));
        } else {
            assert(t.players[i] != t.players[j]);
        }
    }
}

/// Vacating a seat never makes anybody sit twice.
pub proof fn lemma_vacating_keeps_different(players: Seq<Pubkey>, out: int)
    requires
        all_different(players),
        0 <= out < players.len(),
    ensures
        all_different(players.remove(out)),
{
    let left: Seq<Pubkey> = players.remove(out);
    assert forall|i: int, j: int| 0 <= i < j < left.len() implies left[i] != left[j] by {
        let from_i: int = if i < out { i } else { i + 1 };
        let from_j: int = if j < out { j } else { j + 1 };
        assert(left[i] == players[from_i]);
        assert(left[j] == players[from_j]);
        assert(players[from_i] != players[from_j]);
    }
}

/// A casting has four seats, the culprit at the chosen one and citizens at
/// the three others.
pub proof fn lemma_casting(k: int)
    requires
        0 <= k < MAX_PLAYERS,
    ensures
        casting(k).len() == MAX_PLAYERS,
        sole_culprit_at(casting(k), k),
        one_culprit(casting(k)),
{
}

/// Starting a full table gives a running match that can arise, in which
/// exactly one of the four seats is the culprit.
pub proof fn lemma_started_valid(t: Table, k: int)
    requires
        t.valid(),
        t.ready_to_start(),
        0 <= k < MAX_PLAYERS,
    ensures
        t.started(k).valid(),
        t.started(k).state == GameState::InProgress,
        t.started(k).roles.len() == MAX_PLAYERS,
        sole_culprit_at(t.started(k).roles, k),
        t.started(k).players == t.players,
{
    lemma_casting(k);
}

/// A vote that counts leaves a table that can arise. It raises the counter
/// of its seat by one and touches nothing else.
pub proof fn lemma_voted_valid(t: Table, target: int)
    requires
        t.valid(),
        t.takes_vote(target),
        t.vote_fits(target),
    ensures
        t.voted(target).valid(),
        t.voted(target).votes[target] == t.votes[target] + 1,
        forall|j: int|
            0 <= j < t.votes.len() && j != target ==> t.voted(target).votes[j] == t.votes[j],
        t.voted(target).state == t.state,
        t.voted(target).players == t.players,
        t.voted(target).roles == t.roles,
{
}

/// In a running match the round votes out a seat of the table.
pub proof fn lemma_suspect_is_seated(t: Table)
    requires
        t.valid(),
        t.state == GameState::InProgress,
    ensures
        is_first_max(t.votes, t.suspect()),
        0 <= t.suspect() < t.players.len(),
{
    lemma_first_max_exists(t.votes);
}

/// Taking a citizen's seat away leaves exactly one culprit.
pub proof fn lemma_culprit_survives(roles: Seq<Role>, out: int)
    requires
        one_culprit(roles),
        0 <= out < roles.len(),
        roles[out] != Role::Culprit,
    ensures
        one_culprit(roles.remove(out)),
        only_culprits(roles.remove(out)) <==> roles.len() == 2,
{
    let k: int = choose|k: int| sole_culprit_at(roles, k);
    let left: Seq<Role> = roles.remove(out);
    let k_left: int = if k < out { k } else { k - 1 };
    assert forall|j: int| 0 <= j < left.len() implies (left[j] == Role::Culprit <==> j
        == k_left) by {
        if j < out {
            assert(left[j] == roles[j]);
        } else {
            assert(left[j] == roles[j + 1]);
        }
    }
    assert(sole_culprit_at(left, k_left));
    if left.len() >= 2 {
        let other: int = if k_left == 0 { 1 } else { 0 };
        assert(left[other] != Role::Culprit);
    }
}

/// Closing a round of a running match gives a table that can arise. The
/// match is then over or still running, the counters are back at zero, one
/// for each seat that is left, nobody has been added and nobody sits twice.
pub proof fn lemma_resolved_valid(t: Table)
    requires
        t.valid(),
        t.state == GameState::InProgress,
    ensures
        t.resolved().valid(),
        all_different(t.resolved().players),
        t.resolved().state != GameState::WaitingForPlayers,
        t.resolved().votes == no_votes(t.resolved().players.len()),
        t.resolved().players.len() <= t.players.len(),
{
    lemma_suspect_is_seated(t);
    let out: int = t.suspect();
    if t.roles[out] != Role::Culprit {
        lemma_culprit_survives(t.roles, out);
        lemma_vacating_keeps_different(t.players, out);
    }
}

/// The table after `player` asked for a seat: the seat is given where the
/// table seats `player`, and nothing changes where it does not.
pub open spec fn after_join(t: Table, player: Pubkey) -> Table {
    if t.seats(player) {
        t.joined(player)
    } else {
        t
    }
}

/// Somebody who is seated and asks again is refused, and so is everybody
/// once four are seated: the table stays as it is.
pub proof fn lemma_no_second_seat(t: Table, player: Pubkey)
    ensures
        t.players.contains(player) ==> !t.seats(player) && after_join(t, player) == t,
        t.players.len() >= MAX_PLAYERS ==> !t.seats(player) && after_join(t, player) == t,
{
}

/// The table after each of `players` asked for a seat, one after the other.
pub open spec fn after_joins(t: Table, players: Seq<Pubkey>) -> Table
    decreases players.len(),
{
    if players.len() == 0 {
        t
    } else {
        after_join(after_joins(t, players.drop_last()), players.last())
    }
}

/// However many ask for a seat, however often, and at whatever table, the
/// table stays one that can arise: it never seats more than four and never
/// seats anybody twice.
pub proof fn lemma_seats_are_capped(t: Table, players: Seq<Pubkey>)
    requires
        t.valid(),
    ensures
        after_joins(t, players).valid(),
        after_joins(t, players).players.len() <= MAX_PLAYERS,
        all_different(after_joins(t, players).players),
        after_joins(t, players).state == t.state,
    decreases players.len(),
{
    if players.len() > 0 {
        lemma_seats_are_capped(t, players.drop_last());
        let before: Table = after_joins(t, players.drop_last());
        if before.seats(players.last()) {
            lemma_joined_valid(before, players.last());
        }
    }
}

/// At a new table, of different identities the first four who ask are seated
/// in the order in which they asked, and everybody after them is refused.
pub proof fn lemma_first_four_are_seated(players: Seq<Pubkey>)
    requires
        all_different(players),
    ensures
        players.len() <= MAX_PLAYERS ==> after_joins(Table::fresh(), players).players == players,
        players.len() >= MAX_PLAYERS ==> after_joins(Table::fresh(), players).players
            == players.take(MAX_PLAYERS as int),
        players.len() >= MAX_PLAYERS ==> !after_joins(Table::fresh(), players).open_for_players(),
    decreases players.len(),
{
    if players.len() == 0 {
        assert(Table::fresh().players =~= players);
    } else {
        let front: Seq<Pubkey> = players.drop_last();
        assert forall|i: int, j: int| 0 <= i < j < front.len() implies front[i] != front[j] by {
            assert(players[i] != players[j]);
        }
        lemma_first_four_are_seated(front);
        lemma_seats_are_capped(Table::fresh(), front);
        let before: Table = after_joins(Table::fresh(), front);
        if players.len() <= MAX_PLAYERS {
            assert(before.players == front);
            assert forall|i: int| 0 <= i < front.len() implies front[i] != players.last() by {
                assert(players[i] != players[players.len() - 1]);
            }
            assert(!front.contains(players.last()));
            assert(before.players.push(players.last()) =~= players);
        } else {
            assert(front.take(MAX_PLAYERS as int) =~= players.take(MAX_PLAYERS as int));
        }
    }
}

/// A finished match takes no move: nobody can join, it cannot start again,
/// and no vote counts.
pub proof fn lemma_finished_is_final(t: Table, player: Pubkey, target: int)
    requires
        t.state == GameState::Finished,
    ensures
        !t.open_for_players(),
        !t.seats(player),
        !t.ready_to_start(),
        !t.takes_vote(target),
{
}

/// How a round of a running match ends. If the seat voted out is the
/// culprit, the match is over and everybody keeps their seat. If it is a
/// citizen, that seat and no other is vacated, and the match is over exactly
/// when the culprit alone is left, which is when two sat at the table.
pub proof fn lemma_round_outcome(t: Table)
    requires
        t.valid(),
        t.state == GameState::InProgress,
    ensures
        t.roles[t.suspect()] == Role::Culprit ==> t.resolved().winner() == Some(Role::Citizen)
            && t.resolved().players == t.players
            && t.resolved().roles == t.roles,
        t.roles[t.suspect()] != Role::Culprit ==> t.resolved().players == t.players.remove(
            t.suspect(),
        ) && t.resolved().roles == t.roles.remove(t.suspect()),
        t.roles[t.suspect()] != Role::Culprit && t.players.len() == 2 ==> t.resolved().winner()
            == Some(Role::Culprit)
            && t.resolved().roles == seq![Role::Culprit],
        t.roles[t.suspect()] != Role::Culprit && t.players.len() > 2 ==> t.resolved().winner()
            == None::<Role>
            && t.resolved().state == GameState::InProgress,
{
    lemma_suspect_is_seated(t);
    let out: int = t.suspect();
    if t.roles[out] != Role::Culprit {
        lemma_culprit_survives(t.roles, out);
        let left: Seq<Role> = t.roles.remove(out);
        if left.len() == 1 {
            assert(left =~= seq![Role::Culprit]);
        }
    } else {
        let other: int = if out == 0 { 1 } else { 0 };
        assert(t.roles[other] != Role::Culprit);
    }
}

/// Whatever the move, it leaves a table that can arise. It never moves the
/// match back to an earlier stage, never seats more than four, adds nobody
/// once the match has started, leaves the round counter alone, and changes
/// nothing at all once the match is over.
pub proof fn lemma_move_is_sound(before: Table, after: Table)
    requires
        before.valid(),
        before.leads_to(after),
    ensures
        after.valid(),
        after.state.rank() >= before.state.rank(),
        after.players.len() <= MAX_PLAYERS,
        before.state != GameState::WaitingForPlayers ==> after.players.len()
            <= before.players.len(),
        before.state == GameState::Finished ==> after == before,
        after.turn == before.turn,
{
    if after == before {
    } else if exists|player: Pubkey|
        before.seats(player) && after == #[trigger] before.joined(player) {
        let player: Pubkey = choose|player: Pubkey|
            before.seats(player) && after == #[trigger] before.joined(player);
        lemma_joined_valid(before, player);
    } else if before.ready_to_start() && exists|k: int|
        0 <= k < MAX_PLAYERS && after == #[trigger] before.started(k) {
        let k: int = choose|k: int| 0 <= k < MAX_PLAYERS && after == #[trigger] before.started(k);
        lemma_started_valid(before, k);
    } else if before.state == GameState::InProgress && after == before.resolved() {
        lemma_resolved_valid(before);
    } else {
        let target: int = choose|target: int|
            before.takes_vote(target) && before.votes[target] < u8::MAX && after
                == #[trigger] before.voted(target);
        lemma_voted_valid(before, target);
    }
}

/// `tables` is the course of a match: each table after the first comes from
/// the one before it by one move.
pub open spec fn is_course(tables: Seq<Table>) -> bool {
    forall|i: int| 0 <= i < tables.len() - 1 ==> (#[trigger] tables[i]).leads_to(tables[i + 1])
}

/// Along the course of a match that began at a table that can arise, every
/// table can arise, the stage of a later table is never behind that of an
/// earlier one, and from the table at which the match is over no table
/// differs.
pub proof fn lemma_course_is_sound(tables: Seq<Table>, i: int, j: int)
    requires
        is_course(tables),
        0 <= i <= j < tables.len(),
        tables[0].valid(),
    ensures
        tables[i].valid(),
        tables[j].valid(),
        tables[j].players.len() <= MAX_PLAYERS,
        all_different(tables[j].players),
        tables[i].state.rank() <= tables[j].state.rank(),
        tables[i].state == GameState::Finished ==> tables[j] == tables[i],
    decreases j,
{
    if j > 0 {
        lemma_course_is_sound(tables, 0, j - 1);
        assert(tables[j - 1].leads_to(tables[j - 1 + 1]));
        lemma_move_is_sound(tables[j - 1], tables[j]);
        if i < j {
            lemma_course_is_sound(tables, i, j - 1);
        }
    }
}

} // verus!
