use trivia_chain::chain::TriviaChain;
use trivia_chain::leaderboard::LeaderboardEntry;
use trivia_chain::scoring::{
    calculate_points, difficulty_multiplier, time_bonus, DIFFICULTY_EASY, DIFFICULTY_HARD, DIFFICULTY_MEDIUM,
};
use trivia_chain::session::QuestionMeta;
use trivia_chain::types::{Account, Bytes32, SessionStatus, TriviaChainError};

fn acct(n: u128) -> Account {
    Account { high: 0, low: n }
}

fn code(n: u128) -> Bytes32 {
    Bytes32 { high: 0, low: n }
}

const HOST: u128 = 1;
const ALICE: u128 = 2;
const BOB: u128 = 3;
const CAROL: u128 = 4;
const ROOM: u128 = 77;
const RIGHT: u128 = 1000;
const WRONG: u128 = 1001;

fn meta(difficulty: u8) -> QuestionMeta {
    QuestionMeta {
        content_hash: code(9),
        question_type: 0,
        difficulty,
        correct_answer_hash: code(RIGHT),
    }
}

/// A store with one session (id 1) that `players` have joined.
fn session_with(max_players: u64, duration: u64, players: &[u128]) -> TriviaChain {
    let mut c = TriviaChain::new();
    let id = c.create_session(code(ROOM), max_players, duration, acct(HOST)).unwrap();
    assert_eq!(id, 1);
    for p in players {
        c.join_session(1, code(ROOM), code(*p), acct(*p), 5).unwrap();
    }
    c
}

#[test]
fn scoring_first_and_second_correct_answer() {
    let first = calculate_points(true, 0, 10, DIFFICULTY_EASY, 0);
    assert_eq!(first.points, 150);
    assert_eq!(first.new_streak, 1);
    let second = calculate_points(true, 10, 10, DIFFICULTY_EASY, first.new_streak);
    assert_eq!(second.points, 120);
    assert_eq!(second.new_streak, 2);
}

#[test]
fn scoring_wrong_answer_resets_streak() {
    let r = calculate_points(false, 10, 10, DIFFICULTY_HARD, 4);
    assert_eq!(r.points, 0);
    assert_eq!(r.new_streak, 0);
}

#[test]
fn scoring_multipliers_and_time_bonus() {
    assert_eq!(difficulty_multiplier(DIFFICULTY_EASY), 100);
    assert_eq!(difficulty_multiplier(DIFFICULTY_MEDIUM), 150);
    assert_eq!(difficulty_multiplier(DIFFICULTY_HARD), 200);
    assert_eq!(difficulty_multiplier(9), 100);
    assert_eq!(time_bonus(0, 10), 50);
    assert_eq!(time_bonus(5, 30), 41);
    assert_eq!(time_bonus(30, 30), 0);
    assert_eq!(time_bonus(40, 30), 0);
    // Medium, 3 s into a 10 s question, third correct answer in a row.
    let r = calculate_points(true, 3, 10, DIFFICULTY_MEDIUM, 2);
    assert_eq!(r.points, (100 + 35) * 150 / 100 + 30);
    assert_eq!(r.new_streak, 3);
}

#[test]
fn scoring_saturates_streak() {
    let r = calculate_points(true, 0, 10, DIFFICULTY_EASY, u64::MAX);
    assert_eq!(r.new_streak, u64::MAX);
    assert_eq!(r.points, u64::MAX);
}

#[test]
fn initialize_only_once() {
    let mut c = TriviaChain::new();
    assert_eq!(c.initialize(acct(HOST)), Ok(()));
    assert_eq!(c.owner, acct(HOST));
    assert_eq!(c.initialize(acct(ALICE)), Err(TriviaChainError::Unauthorized));
    assert_eq!(c.owner, acct(HOST));
}

#[test]
fn create_session_ids_are_sequential() {
    let mut c = TriviaChain::new();
    assert_eq!(c.create_session(code(ROOM), 4, 30, acct(HOST)), Ok(1));
    assert_eq!(c.create_session(code(ROOM), 4, 30, acct(ALICE)), Ok(2));
    assert_eq!(c.create_session(code(ROOM), 4, 0, acct(ALICE)), Err(TriviaChainError::InvalidDuration));
    assert_eq!(c.create_session(code(ROOM), 4, 30, acct(BOB)), Ok(3));
    let info = c.get_session_info(2).unwrap();
    assert_eq!(info.host, acct(ALICE));
    assert_eq!(info.status, SessionStatus::Created);
    assert_eq!(info.player_count, 0);
    assert!(c.get_session_info(4).is_none());
    assert!(c.get_session_info(0).is_none());
}

#[test]
fn join_keeps_count_and_list_in_step() {
    let mut c = session_with(3, 30, &[ALICE, BOB]);
    assert_eq!(c.join_session(1, code(ROOM), code(0), acct(ALICE), 6), Err(TriviaChainError::PlayerAlreadyJoined));
    assert_eq!(c.get_player_list(1), vec![acct(ALICE), acct(BOB)]);
    assert_eq!(c.get_session_info(1).unwrap().player_count, 2);
    c.join_session(1, code(ROOM), code(0), acct(CAROL), 6).unwrap();
    assert_eq!(c.get_player_list(1), vec![acct(ALICE), acct(BOB), acct(CAROL)]);
    assert_eq!(c.get_session_info(1).unwrap().player_count, 3);
}

#[test]
fn join_capacity_gate() {
    let mut c = session_with(2, 30, &[ALICE]);
    // One below the maximum: accepted.
    assert_eq!(c.join_session(1, code(ROOM), code(0), acct(BOB), 6), Ok(()));
    // At the maximum: refused as full.
    assert_eq!(c.join_session(1, code(ROOM), code(0), acct(CAROL), 6), Err(TriviaChainError::SessionFull));
    assert_eq!(c.get_session_info(1).unwrap().player_count, 2);
}

#[test]
fn join_errors() {
    let mut c = session_with(2, 30, &[ALICE]);
    assert_eq!(c.join_session(2, code(ROOM), code(0), acct(BOB), 6), Err(TriviaChainError::SessionNotFound));
    assert_eq!(c.join_session(1, code(ROOM + 1), code(0), acct(BOB), 6), Err(TriviaChainError::InvalidRoomCode));
    c.start_session(1, acct(HOST), 7).unwrap();
    assert_eq!(c.join_session(1, code(ROOM), code(0), acct(BOB), 8), Err(TriviaChainError::SessionAlreadyActive));
}

#[test]
fn start_session_rules() {
    let mut c = session_with(2, 30, &[ALICE]);
    assert_eq!(c.start_session(1, acct(ALICE), 7), Err(TriviaChainError::Unauthorized));
    assert_eq!(c.start_session(9, acct(HOST), 7), Err(TriviaChainError::SessionNotFound));
    assert_eq!(c.start_session(1, acct(HOST), 7), Ok(()));
    let info = c.get_session_info(1).unwrap();
    assert_eq!(info.status, SessionStatus::Active);
    assert_eq!(info.start_time, 7);
    assert_eq!(c.start_session(1, acct(HOST), 8), Err(TriviaChainError::SessionAlreadyActive));
}

#[test]
fn start_question_rules() {
    let mut c = session_with(2, 30, &[ALICE]);
    assert_eq!(c.start_question(1, 0, meta(DIFFICULTY_EASY), acct(HOST), 7), Err(TriviaChainError::SessionNotActive));
    c.start_session(1, acct(HOST), 7).unwrap();
    assert_eq!(c.start_question(1, 0, meta(DIFFICULTY_EASY), acct(ALICE), 8), Err(TriviaChainError::Unauthorized));
    assert_eq!(c.start_question(1, 3, meta(DIFFICULTY_EASY), acct(HOST), 8), Ok(()));
    let info = c.get_session_info(1).unwrap();
    assert_eq!(info.current_question_index, 3);
    assert_eq!(info.question_start_time, 8);
    assert_eq!(c.sessions[0].questions.len(), 1);
    assert_eq!(c.sessions[0].questions[0].question.time_limit, 30);
    // Reusing an index replaces the stored question.
    assert_eq!(c.start_question(1, 3, meta(DIFFICULTY_HARD), acct(HOST), 9), Ok(()));
    assert_eq!(c.sessions[0].questions.len(), 1);
    assert_eq!(c.sessions[0].questions[0].question.difficulty, DIFFICULTY_HARD);
}

#[test]
fn submit_answer_errors() {
    let mut c = session_with(3, 30, &[ALICE, BOB]);
    assert_eq!(c.submit_answer(1, 0, code(RIGHT), acct(ALICE), 8), Err(TriviaChainError::SessionNotActive));
    c.start_session(1, acct(HOST), 10).unwrap();
    // No question opened yet.
    assert_eq!(c.submit_answer(1, 0, code(RIGHT), acct(ALICE), 11), Err(TriviaChainError::QuestionNotActive));
    c.start_question(1, 0, meta(DIFFICULTY_EASY), acct(HOST), 20).unwrap();
    assert_eq!(c.submit_answer(2, 0, code(RIGHT), acct(ALICE), 21), Err(TriviaChainError::SessionNotFound));
    assert_eq!(c.submit_answer(1, 1, code(RIGHT), acct(ALICE), 21), Err(TriviaChainError::InvalidQuestionIndex));
    assert_eq!(c.submit_answer(1, 0, code(RIGHT), acct(CAROL), 21), Err(TriviaChainError::PlayerNotInSession));
    assert_eq!(c.submit_answer(1, 0, code(RIGHT), acct(BOB), 50), Ok(100));
    assert_eq!(c.submit_answer(1, 0, code(RIGHT), acct(ALICE), 52), Err(TriviaChainError::QuestionNotActive));
}

#[test]
fn second_submission_is_rejected() {
    let mut c = session_with(2, 30, &[ALICE]);
    c.start_session(1, acct(HOST), 10).unwrap();
    c.start_question(1, 0, meta(DIFFICULTY_EASY), acct(HOST), 10).unwrap();
    assert_eq!(c.submit_answer(1, 0, code(WRONG), acct(ALICE), 10), Ok(50));
    let score = c.get_player_score(1, acct(ALICE));
    assert_eq!(score, 50);
    assert_eq!(c.submit_answer(1, 0, code(RIGHT), acct(ALICE), 11), Err(TriviaChainError::AlreadyAnswered));
    assert_eq!(c.submit_answer(1, 0, code(WRONG), acct(ALICE), 12), Err(TriviaChainError::AlreadyAnswered));
    assert_eq!(c.get_player_score(1, acct(ALICE)), score);
    assert_eq!(c.sessions[0].answers.len(), 1);
}

#[test]
fn streak_bonus_across_questions() {
    let mut c = session_with(2, 10, &[ALICE]);
    c.start_session(1, acct(HOST), 0).unwrap();
    c.start_question(1, 0, meta(DIFFICULTY_EASY), acct(HOST), 100).unwrap();
    assert_eq!(c.submit_answer(1, 0, code(RIGHT), acct(ALICE), 100), Ok(150));
    c.start_question(1, 1, meta(DIFFICULTY_EASY), acct(HOST), 200).unwrap();
    assert_eq!(c.submit_answer(1, 1, code(RIGHT), acct(ALICE), 210), Ok(120));
    let p = c.sessions[0].players[0];
    assert_eq!(p.score, 270);
    assert_eq!(p.current_streak, 2);
    assert_eq!(p.best_streak, 2);
    assert_eq!(p.correct_answers, 2);
    assert_eq!(p.total_response_time, 10);
    c.start_question(1, 2, meta(DIFFICULTY_EASY), acct(HOST), 300).unwrap();
    assert_eq!(c.submit_answer(1, 2, code(WRONG), acct(ALICE), 310), Ok(0));
    let p = c.sessions[0].players[0];
    assert_eq!(p.current_streak, 0);
    assert_eq!(p.best_streak, 2);
    assert_eq!(p.correct_answers, 2);
    assert_eq!(p.total_response_time, 20);
}

#[test]
fn end_to_end_two_players() {
    let mut c = TriviaChain::new();
    let id = c.create_session(code(ROOM), 2, 30, acct(HOST)).unwrap();
    c.join_session(id, code(ROOM), code(1), acct(ALICE), 1).unwrap();
    c.join_session(id, code(ROOM), code(2), acct(BOB), 2).unwrap();
    c.start_session(id, acct(HOST), 100).unwrap();
    let t = 200;
    c.start_question(id, 0, meta(DIFFICULTY_HARD), acct(HOST), t).unwrap();
    let expected = (100 + 25 * 50 / 30) * 200 / 100;
    assert_eq!(c.submit_answer(id, 0, code(RIGHT), acct(ALICE), t + 5), Ok(expected));
    assert_eq!(c.submit_answer(id, 0, code(RIGHT), acct(BOB), t + 31), Err(TriviaChainError::QuestionNotActive));
    assert_eq!(c.end_session(id, acct(HOST), t + 40), Ok(acct(ALICE)));
    assert_eq!(c.get_winner(id), acct(ALICE));
    assert_eq!(c.get_player_stats(acct(ALICE)).total_wins, 1);
    assert_eq!(c.get_player_stats(acct(BOB)).total_wins, 0);
    assert_eq!(c.get_player_stats(acct(BOB)).games_played, 1);
    assert_eq!(c.get_session_info(id).unwrap().status, SessionStatus::Completed);
}

#[test]
fn end_session_rules() {
    let mut c = session_with(2, 30, &[ALICE]);
    assert_eq!(c.end_session(1, acct(HOST), 5), Err(TriviaChainError::SessionNotActive));
    c.start_session(1, acct(HOST), 6).unwrap();
    assert_eq!(c.end_session(1, acct(ALICE), 7), Err(TriviaChainError::Unauthorized));
    assert_eq!(c.end_session(3, acct(HOST), 7), Err(TriviaChainError::SessionNotFound));
    // Nobody scored: the winner is the zero account and nobody gets a win.
    assert_eq!(c.end_session(1, acct(HOST), 8), Ok(Account::zero()));
    assert_eq!(c.get_session_info(1).unwrap().end_time, 8);
    let s = c.get_player_stats(acct(ALICE));
    assert_eq!(s.games_played, 1);
    assert_eq!(s.total_wins, 0);
    assert_eq!(c.end_session(1, acct(HOST), 9), Err(TriviaChainError::SessionNotActive));
}

#[test]
fn stats_accumulate_over_games() {
    let mut c = TriviaChain::new();
    for (round, answer) in [(0u64, RIGHT), (1u64, WRONG)] {
        let id = c.create_session(code(ROOM), 2, 10, acct(HOST)).unwrap();
        assert_eq!(id, round + 1);
        c.join_session(id, code(ROOM), code(0), acct(ALICE), 0).unwrap();
        c.start_session(id, acct(HOST), 0).unwrap();
        c.start_question(id, 0, meta(DIFFICULTY_EASY), acct(HOST), 0).unwrap();
        c.submit_answer(id, 0, code(answer), acct(ALICE), 10).unwrap();
        c.end_session(id, acct(HOST), 20).unwrap();
    }
    let s = c.get_player_stats(acct(ALICE));
    assert_eq!(s.games_played, 2);
    assert_eq!(s.total_wins, 1);
    assert_eq!(s.total_score, 100);
    assert_eq!(s.best_score, 100);
    assert_eq!(s.total_correct_answers, 1);
    assert_eq!(s.longest_streak, 1);
    let none = c.get_player_stats(acct(CAROL));
    assert_eq!(none.games_played, 0);
}

#[test]
fn leaderboard_orders_by_score_then_join_order() {
    let mut c = session_with(4, 10, &[ALICE, BOB, CAROL]);
    c.start_session(1, acct(HOST), 0).unwrap();
    c.start_question(1, 0, meta(DIFFICULTY_EASY), acct(HOST), 0).unwrap();
    assert_eq!(c.submit_answer(1, 0, code(WRONG), acct(ALICE), 10), Ok(0));
    assert_eq!(c.submit_answer(1, 0, code(RIGHT), acct(BOB), 10), Ok(100));
    assert_eq!(c.submit_answer(1, 0, code(RIGHT), acct(CAROL), 10), Ok(100));
    let board = c.get_leaderboard(1).unwrap();
    assert_eq!(
        board,
        vec![
            LeaderboardEntry { account: acct(BOB), score: 100 },
            LeaderboardEntry { account: acct(CAROL), score: 100 },
            LeaderboardEntry { account: acct(ALICE), score: 0 },
        ]
    );
    // The first to reach the top score keeps the lead on a tie.
    assert_eq!(c.get_winner(1), acct(BOB));
    assert_eq!(c.get_leaderboard(2), Err(TriviaChainError::SessionNotFound));
}

#[test]
fn leaderboard_of_empty_session() {
    let c = session_with(4, 10, &[]);
    assert_eq!(c.get_leaderboard(1), Ok(vec![]));
}

#[test]
fn final_score_submission() {
    let mut c = session_with(3, 10, &[ALICE, BOB]);
    assert_eq!(c.submit_final_score(1, 40, 2, acct(ALICE)), Err(TriviaChainError::SessionNotActive));
    c.start_session(1, acct(HOST), 0).unwrap();
    assert_eq!(c.submit_final_score(1, 40, 2, acct(CAROL)), Err(TriviaChainError::PlayerNotInSession));
    assert_eq!(c.submit_final_score(1, 40, 2, acct(ALICE)), Ok(()));
    assert_eq!(c.get_player_score(1, acct(ALICE)), 40);
    assert_eq!(c.get_winner(1), acct(ALICE));
    assert_eq!(c.submit_final_score(1, 90, 3, acct(ALICE)), Err(TriviaChainError::AlreadyAnswered));
    assert_eq!(c.submit_final_score(1, 90, 3, acct(BOB)), Ok(()));
    assert_eq!(c.get_winner(1), acct(BOB));
    assert_eq!(c.get_session_info(1).unwrap().winning_score, 90);
    assert_eq!(c.get_player_score(1, acct(CAROL)), 0);
    assert_eq!(c.get_player_score(7, acct(ALICE)), 0);
    assert_eq!(c.end_session(1, acct(HOST), 5), Ok(acct(BOB)));
    assert_eq!(c.get_player_stats(acct(BOB)).total_wins, 1);
    assert_eq!(c.get_player_stats(acct(ALICE)).total_score, 40);
    // Closed: no more tallies, and the winner stays.
    assert_eq!(c.submit_final_score(1, 500, 3, acct(ALICE)), Err(TriviaChainError::SessionNotActive));
    assert_eq!(c.get_winner(1), acct(BOB));
}

#[test]
fn final_score_of_zero_is_still_final() {
    let mut c = session_with(3, 10, &[ALICE]);
    c.start_session(1, acct(HOST), 0).unwrap();
    assert_eq!(c.submit_final_score(1, 0, 0, acct(ALICE)), Ok(()));
    assert_eq!(c.submit_final_score(1, 70, 4, acct(ALICE)), Err(TriviaChainError::AlreadyAnswered));
    assert_eq!(c.get_player_score(1, acct(ALICE)), 0);
    assert_eq!(c.sessions[0].players[0].correct_answers, 0);
    assert_eq!(c.get_winner(1), Account::zero());
}

#[test]
fn zero_account_cannot_join() {
    let mut c = session_with(3, 10, &[]);
    assert_eq!(c.join_session(1, code(ROOM), code(0), Account::zero(), 6), Err(TriviaChainError::Unauthorized));
    assert_eq!(c.get_session_info(1).unwrap().player_count, 0);
}
