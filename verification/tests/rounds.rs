use anchor_lang::prelude::Pubkey;
use mini_mafia::{
    end_round, initialize, join_game, start_game_with, vote_player, CustomError, Game, GameState,
    Role,
};

fn seat_holder(tag: u8) -> Pubkey {
    Pubkey::new_from_array([tag; 32])
}

fn match_with_culprit_at(culprit_seat: usize) -> Game {
    let mut game = initialize();
    for tag in [b'A', b'B', b'C', b'D'] {
        assert_eq!(join_game(&mut game, seat_holder(tag)), Ok(()));
    }
    assert_eq!(start_game_with(&mut game, culprit_seat), Ok(()));
    game
}

fn cast(game: &mut Game, target: u8, times: usize) {
    for _ in 0..times {
        assert_eq!(vote_player(game, target), Ok(()));
    }
}

#[test]
fn citizens_win_when_the_culprit_is_voted_out() {
    let mut game = match_with_culprit_at(3);
    cast(&mut game, 3, 3);
    assert_eq!(game.votes(), &vec![0u8, 0, 0, 3]);
    assert_eq!(end_round(&mut game), Ok(()));
    assert_eq!(game.state(), GameState::Finished);
    assert_eq!(
        game.players(),
        &vec![seat_holder(b'A'), seat_holder(b'B'), seat_holder(b'C'), seat_holder(b'D')]
    );
    assert_eq!(
        game.roles(),
        &vec![Role::Citizen, Role::Citizen, Role::Citizen, Role::Culprit]
    );
    assert_eq!(game.votes(), &vec![0u8, 0, 0, 0]);
    assert_eq!(game.turn(), 0);
    assert_eq!(game.winner(), Some(Role::Citizen));
}

#[test]
fn culprit_wins_as_the_last_one_seated() {
    let mut game = match_with_culprit_at(2);

    cast(&mut game, 0, 3);
    assert_eq!(game.votes(), &vec![3u8, 0, 0, 0]);
    assert_eq!(end_round(&mut game), Ok(()));
    assert_eq!(
        game.players(),
        &vec![seat_holder(b'B'), seat_holder(b'C'), seat_holder(b'D')]
    );
    assert_eq!(game.roles(), &vec![Role::Citizen, Role::Culprit, Role::Citizen]);
    assert_eq!(game.state(), GameState::InProgress);
    assert_eq!(game.votes(), &vec![0u8, 0, 0]);

    cast(&mut game, 2, 3);
    assert_eq!(game.votes(), &vec![0u8, 0, 3]);
    assert_eq!(end_round(&mut game), Ok(()));
    assert_eq!(game.players(), &vec![seat_holder(b'B'), seat_holder(b'C')]);
    assert_eq!(game.roles(), &vec![Role::Citizen, Role::Culprit]);
    assert_eq!(game.state(), GameState::InProgress);
    assert_eq!(game.votes(), &vec![0u8, 0]);
    assert_eq!(game.winner(), None);

    cast(&mut game, 0, 3);
    assert_eq!(game.votes(), &vec![3u8, 0]);
    assert_eq!(end_round(&mut game), Ok(()));
    assert_eq!(game.players(), &vec![seat_holder(b'C')]);
    assert_eq!(game.roles(), &vec![Role::Culprit]);
    assert_eq!(game.state(), GameState::Finished);
    assert_eq!(game.votes(), &vec![0u8]);
    assert_eq!(game.winner(), Some(Role::Culprit));
}

#[test]
fn nobody_has_won_before_the_match_is_over() {
    let mut game = initialize();
    assert_eq!(game.winner(), None);
    for tag in 1..=4u8 {
        assert_eq!(join_game(&mut game, seat_holder(tag)), Ok(()));
    }
    assert_eq!(game.winner(), None);
    assert_eq!(start_game_with(&mut game, 0), Ok(()));
    assert_eq!(game.winner(), None);
}

#[test]
fn tied_round_votes_out_the_lowest_seat() {
    let mut game = match_with_culprit_at(3);
    cast(&mut game, 3, 1);
    assert_eq!(game.votes(), &vec![0u8, 0, 0, 1]);
    assert_eq!(end_round(&mut game), Ok(()));
    assert_eq!(game.state(), GameState::Finished);

    let mut game = match_with_culprit_at(2);
    cast(&mut game, 3, 1);
    assert_eq!(end_round(&mut game), Ok(()));
    assert_eq!(
        game.players(),
        &vec![seat_holder(b'A'), seat_holder(b'B'), seat_holder(b'C')]
    );
    cast(&mut game, 0, 2);
    cast(&mut game, 1, 2);
    cast(&mut game, 2, 1);
    assert_eq!(game.votes(), &vec![2u8, 2, 1]);
    assert_eq!(end_round(&mut game), Ok(()));
    assert_eq!(game.players(), &vec![seat_holder(b'B'), seat_holder(b'C')]);
    assert_eq!(game.roles(), &vec![Role::Citizen, Role::Culprit]);
    assert_eq!(game.state(), GameState::InProgress);
}

#[test]
fn a_round_without_votes_removes_seat_zero() {
    let mut game = match_with_culprit_at(1);
    assert_eq!(end_round(&mut game), Ok(()));
    assert_eq!(
        game.players(),
        &vec![seat_holder(b'B'), seat_holder(b'C'), seat_holder(b'D')]
    );
    assert_eq!(game.roles(), &vec![Role::Culprit, Role::Citizen, Role::Citizen]);
    assert_eq!(game.state(), GameState::InProgress);
    assert_eq!(end_round(&mut game), Ok(()));
    assert_eq!(game.state(), GameState::Finished);
    assert_eq!(game.players().len(), 3);
}

#[test]
fn a_finished_match_is_not_changed_by_closing_a_round() {
    let mut game = match_with_culprit_at(3);
    cast(&mut game, 3, 3);
    assert_eq!(end_round(&mut game), Ok(()));
    assert_eq!(game.state(), GameState::Finished);
    let players = game.players().clone();
    let roles = game.roles().clone();
    let votes = game.votes().clone();
    for _ in 0..3 {
        assert_eq!(end_round(&mut game), Err(CustomError::GameNotInProgress));
        assert_eq!(game.players(), &players);
        assert_eq!(game.roles(), &roles);
        assert_eq!(game.votes(), &votes);
        assert_eq!(game.state(), GameState::Finished);
    }
}

#[test]
fn a_match_won_by_the_culprit_is_not_changed_by_closing_a_round() {
    let mut game = match_with_culprit_at(0);
    cast(&mut game, 1, 1);
    assert_eq!(end_round(&mut game), Ok(()));
    cast(&mut game, 1, 1);
    assert_eq!(end_round(&mut game), Ok(()));
    cast(&mut game, 1, 1);
    assert_eq!(end_round(&mut game), Ok(()));
    assert_eq!(game.state(), GameState::Finished);
    assert_eq!(game.players(), &vec![seat_holder(b'A')]);
    assert_eq!(end_round(&mut game), Err(CustomError::GameNotInProgress));
    assert_eq!(game.players(), &vec![seat_holder(b'A')]);
    assert_eq!(game.roles(), &vec![Role::Culprit]);
    assert_eq!(game.votes(), &vec![0u8]);
}

#[test]
fn a_round_cannot_be_closed_before_the_start() {
    let mut game = initialize();
    assert_eq!(end_round(&mut game), Err(CustomError::GameNotInProgress));
    for tag in 1..=4u8 {
        assert_eq!(join_game(&mut game, seat_holder(tag)), Ok(()));
    }
    assert_eq!(end_round(&mut game), Err(CustomError::GameNotInProgress));
    assert_eq!(game.players().len(), 4);
    assert!(game.roles().is_empty());
    assert_eq!(game.votes(), &vec![0u8, 0, 0, 0]);
    assert_eq!(game.state(), GameState::WaitingForPlayers);
}

#[test]
fn counters_restart_at_zero_for_the_seats_left() {
    let mut game = match_with_culprit_at(3);
    cast(&mut game, 1, 2);
    cast(&mut game, 2, 1);
    assert_eq!(end_round(&mut game), Ok(()));
    assert_eq!(game.state(), GameState::InProgress);
    assert_eq!(game.votes().len(), game.players().len());
    assert_eq!(game.votes(), &vec![0u8, 0, 0]);
    cast(&mut game, 0, 1);
    assert_eq!(end_round(&mut game), Ok(()));
    assert_eq!(game.state(), GameState::InProgress);
    assert_eq!(game.votes().len(), game.players().len());
    assert_eq!(game.votes(), &vec![0u8, 0]);
}

fn rank(state: GameState) -> u8 {
    match state {
        GameState::WaitingForPlayers => 0,
        GameState::InProgress => 1,
        GameState::Finished => 2,
    }
}

#[test]
fn the_phase_never_moves_back() {
    let mut game = initialize();
    let mut last = rank(game.state());
    for step in 0..40u8 {
        match step % 5 {
            0 => {
                let _ = join_game(&mut game, seat_holder(step));
            }
            1 => {
                let _ = start_game_with(&mut game, (step % 4) as usize);
            }
            2 | 3 => {
                if game.votes()[0] < u8::MAX {
                    let _ = vote_player(&mut game, 0);
                }
            }
            _ => {
                if step > 20 {
                    let _ = end_round(&mut game);
                }
            }
        }
        let now = rank(game.state());
        assert!(now >= last);
        last = now;
    }
    assert_eq!(game.state(), GameState::Finished);
}
