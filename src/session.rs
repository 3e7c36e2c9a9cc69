//! One session: its roster, questions and write-once answers, with the
//! operations of its Created, Active, Completed lifecycle.

use vstd::prelude::*;
use crate::types::{Account, Bytes32, SessionStatus, TriviaChainError};
use crate::scoring::{
    AnswerScore, calculate_points, cap_u64, new_streak_spec, points_spec, saturating_sum,
};

verus! {

/// A player's record within one session.
#[derive(Clone, Copy, Debug, PartialEq, Eq, Structural)]
pub struct Player {
    pub account: Account,
    pub display_name: Bytes32,
    pub score: u64,
    pub current_streak: u64,
    pub best_streak: u64,
    pub correct_answers: u64,
    pub total_response_time: u64,
    pub is_active: bool,
    pub join_time: u64,
    /// Whether this player has already sent a final tally.
    pub final_score_submitted: bool,
}

/// What the host supplies when opening a question.
#[derive(Clone, Copy, Debug, PartialEq, Eq, Structural)]
pub struct QuestionMeta {
    pub content_hash: Bytes32,
    pub question_type: u8,
    pub difficulty: u8,
    pub correct_answer_hash: Bytes32,
}

/// A question as stored in its session; immutable once stored.
#[derive(Clone, Copy, Debug, PartialEq, Eq, Structural)]
pub struct Question {
    pub content_hash: Bytes32,
    pub question_type: u8,
    pub difficulty: u8,
    pub time_limit: u64,
    pub correct_answer_hash: Bytes32,
}

/// A question together with its index in the session.
#[derive(Clone, Copy, Debug, PartialEq, Eq, Structural)]
pub struct QuestionSlot {
    pub index: u64,
    pub question: Question,
}

/// One player's answer to one question; written once.
#[derive(Clone, Copy, Debug, PartialEq, Eq, Structural)]
pub struct Answer {
    pub question_index: u64,
    pub account: Account,
    pub answer_hash: Bytes32,
    pub submit_time: u64,
    pub is_correct: bool,
    pub points: u64,
}

/// One trivia game: its host, roster, questions and answers.
/// `players` is kept in join order and is the session's player list.
pub struct Session {
    pub session_id: u64,
    pub host: Account,
    pub room_code: Bytes32,
    pub status: SessionStatus,
    pub start_time: u64,
    pub end_time: u64,
    pub current_question_index: u64,
    pub question_start_time: u64,
    pub question_duration: u64,
    pub players: Vec<Player>,
    pub player_count: u64,
    pub max_players: u64,
    pub winner: Account,
    pub winning_score: u64,
    pub questions: Vec<QuestionSlot>,
    pub answers: Vec<Answer>,
}

/// The mathematical value of a [`Session`].
pub struct SessionView {
    pub session_id: u64,
    pub host: Account,
    pub room_code: Bytes32,
    pub status: SessionStatus,
    pub start_time: u64,
    pub end_time: u64,
    pub current_question_index: u64,
    pub question_start_time: u64,
    pub question_duration: u64,
    pub players: Seq<Player>,
    pub player_count: u64,
    pub max_players: u64,
    pub winner: Account,
    pub winning_score: u64,
    pub questions: Seq<QuestionSlot>,
    pub answers: Seq<Answer>,
}

impl View for Session {
    type V = SessionView;

    open spec fn view(&self) -> SessionView {
        SessionView {
            session_id: self.session_id,
            host: self.host,
            room_code: self.room_code,
            status: self.status,
            start_time: self.start_time,
            end_time: self.end_time,
            current_question_index: self.current_question_index,
            question_start_time: self.question_start_time,
            question_duration: self.question_duration,
            players: self.players@,
            player_count: self.player_count,
            max_players: self.max_players,
            winner: self.winner,
            winning_score: self.winning_score,
            questions: self.questions@,
            answers: self.answers@,
        }
    }
}

/// Whether `a` has a record in `players`.
pub open spec fn has_player(players: Seq<Player>, a: Account) -> bool {
    exists|i: int| 0 <= i < players.len() && #[trigger] players[i].account == a
}

/// The position of `a` in `players`, or -1.
pub open spec fn player_pos(players: Seq<Player>, a: Account) -> int {
    if has_player(players, a) {
        choose|i: int| 0 <= i < players.len() && #[trigger] players[i].account == a
    } else {
        -1
    }
}

/// No account appears twice in `players`.
pub open spec fn accounts_distinct(players: Seq<Player>) -> bool {
    forall|i: int, j: int|
        0 <= i < players.len() && 0 <= j < players.len() && i != j ==> #[trigger] players[i].account
            != #[trigger] players[j].account
}

/// Whether a question is stored under index `qi`.
pub open spec fn has_question(qs: Seq<QuestionSlot>, qi: u64) -> bool {
    exists|i: int| 0 <= i < qs.len() && #[trigger] qs[i].index == qi
}

/// The position of the question stored under `qi`, or -1.
pub open spec fn question_pos(qs: Seq<QuestionSlot>, qi: u64) -> int {
    if has_question(qs, qi) {
        choose|i: int| 0 <= i < qs.len() && #[trigger] qs[i].index == qi
    } else {
        -1
    }
}

/// No question index is stored twice.
pub open spec fn question_indices_distinct(qs: Seq<QuestionSlot>) -> bool {
    forall|i: int, j: int|
        0 <= i < qs.len() && 0 <= j < qs.len() && i != j ==> #[trigger] qs[i].index != #[trigger] qs[j].index
}

/// Whether `a` has answered question `qi`.
pub open spec fn answered(answers: Seq<Answer>, qi: u64, a: Account) -> bool {
    exists|i: int|
        0 <= i < answers.len() && (#[trigger] answers[i]).question_index == qi && answers[i].account == a
}

/// No (question, account) pair is answered twice.
pub open spec fn answers_unique(answers: Seq<Answer>) -> bool {
    forall|i: int, j: int|
        0 <= i < answers.len() && 0 <= j < answers.len() && i != j ==> (#[trigger] answers[i]).question_index
            != (#[trigger] answers[j]).question_index || answers[i].account != answers[j].account
}

/// Seconds from `start` to `now`, or zero when `now` is earlier.
pub open spec fn elapsed(now: u64, start: u64) -> int {
    if now >= start {
        now - start
    } else {
        0
    }
}

/// The larger of two integers.
pub open spec fn max_int(a: int, b: int) -> int {
    if a >= b {
        a
    } else {
        b
    }
}

/// The record of a player who has just joined.
pub open spec fn fresh_player(account: Account, display_name: Bytes32, now: u64) -> Player {
    Player {
        account,
        display_name,
        score: 0,
        current_streak: 0,
        best_streak: 0,
        correct_answers: 0,
        total_response_time: 0,
        is_active: true,
        join_time: now,
        final_score_submitted: false,
    }
}

/// A player's record after an answer that earned `points` and left the streak at `new_streak`.
pub open spec fn scored_player(p: Player, correct: bool, response_time: int, points: u64, new_streak: u64) -> Player {
    Player {
        score: cap_u64(p.score + points) as u64,
        current_streak: new_streak,
        best_streak: max_int(p.best_streak as int, new_streak as int) as u64,
        correct_answers: (if correct {
            cap_u64(p.correct_answers + 1)
        } else {
            p.correct_answers as int
        }) as u64,
        total_response_time: cap_u64(p.total_response_time + response_time) as u64,
        ..p
    }
}

impl SessionView {
    /// The session's invariant: the roster, the winner and the keyed records agree.
    pub open spec fn wf(self) -> bool {
        &&& self.player_count == self.players.len()
        &&& accounts_distinct(self.players)
        &&& forall|i: int|
            0 <= i < self.players.len() ==> (#[trigger] self.players[i]).account != Account::zero_spec()
        &&& self.question_duration > 0
        &&& self.winning_score == 0 ==> self.winner == Account::zero_spec()
        &&& forall|i: int| 0 <= i < self.players.len() ==> (#[trigger] self.players[i]).is_active
        &&& forall|i: int|
            0 <= i < self.players.len() ==> (#[trigger] self.players[i]).score <= self.winning_score
        &&& self.winning_score > 0 ==> has_player(self.players, self.winner)
            && self.players[player_pos(self.players, self.winner)].score == self.winning_score
        &&& question_indices_distinct(self.questions)
        &&& answers_unique(self.answers)
    }

    /// Whether `a` holds an active player record here.
    pub open spec fn is_player(self, a: Account) -> bool {
        has_player(self.players, a)
    }

    /// The record of player `a` (meaningful when `is_player(a)`).
    pub open spec fn player(self, a: Account) -> Player {
        self.players[player_pos(self.players, a)]
    }

    /// The question stored under `qi` (meaningful when it is stored).
    pub open spec fn question(self, qi: u64) -> Question {
        self.questions[question_pos(self.questions, qi)].question
    }

    pub open spec fn join_error(self, room_code: Bytes32, caller: Account) -> Option<TriviaChainError> {
        if caller == Account::zero_spec() {
            Some(TriviaChainError::Unauthorized)
        } else if self.room_code != room_code {
            Some(TriviaChainError::InvalidRoomCode)
        } else if self.status != SessionStatus::Created {
            Some(TriviaChainError::SessionAlreadyActive)
        } else if self.player_count >= self.max_players {
            Some(TriviaChainError::SessionFull)
        } else if self.is_player(caller) {
            Some(TriviaChainError::PlayerAlreadyJoined)
        } else {
            None
        }
    }

    pub open spec fn joined(self, display_name: Bytes32, caller: Account, now: u64) -> SessionView {
        SessionView {
            players: self.players.push(fresh_player(caller, display_name, now)),
            player_count: (self.player_count + 1) as u64,
            ..self
        }
    }

    pub open spec fn start_error(self, caller: Account) -> Option<TriviaChainError> {
        if self.host != caller {
            Some(TriviaChainError::Unauthorized)
        } else if self.status != SessionStatus::Created {
            Some(TriviaChainError::SessionAlreadyActive)
        } else {
            None
        }
    }

    pub open spec fn started(self, now: u64) -> SessionView {
        SessionView { status: SessionStatus::Active, start_time: now, ..self }
    }

    /// Rejections shared by the host's operations on a running session.
    pub open spec fn host_active_error(self, caller: Account) -> Option<TriviaChainError> {
        if self.host != caller {
            Some(TriviaChainError::Unauthorized)
        } else if self.status != SessionStatus::Active {
            Some(TriviaChainError::SessionNotActive)
        } else {
            None
        }
    }

    /// The questions with `slot` stored under its index, replacing any earlier one.
    pub open spec fn questions_with(self, slot: QuestionSlot) -> Seq<QuestionSlot> {
        if has_question(self.questions, slot.index) {
            self.questions.update(question_pos(self.questions, slot.index), slot)
        } else {
            self.questions.push(slot)
        }
    }

    pub open spec fn question_started(self, qi: u64, meta: QuestionMeta, now: u64) -> SessionView {
        SessionView {
            questions: self.questions_with(
                QuestionSlot {
                    index: qi,
                    question: Question {
                        content_hash: meta.content_hash,
                        question_type: meta.question_type,
                        difficulty: meta.difficulty,
                        time_limit: self.question_duration,
                        correct_answer_hash: meta.correct_answer_hash,
                    },
                },
            ),
            current_question_index: qi,
            question_start_time: now,
            ..self
        }
    }

    pub open spec fn submit_error(self, qi: u64, caller: Account, now: u64) -> Option<TriviaChainError> {
        if self.status != SessionStatus::Active {
            Some(TriviaChainError::SessionNotActive)
        } else if qi != self.current_question_index {
            Some(TriviaChainError::InvalidQuestionIndex)
        } else if !self.is_player(caller) {
            Some(TriviaChainError::PlayerNotInSession)
        } else if answered(self.answers, qi, caller) {
            Some(TriviaChainError::AlreadyAnswered)
        } else if !has_question(self.questions, qi) || now > self.question_start_time
            + self.question(qi).time_limit {
            Some(TriviaChainError::QuestionNotActive)
        } else {
            None
        }
    }

    /// Whether `answer_hash` is the right answer to question `qi`.
    pub open spec fn is_correct(self, qi: u64, answer_hash: Bytes32) -> bool {
        answer_hash == self.question(qi).correct_answer_hash
    }

    /// Points earned by `caller`'s answer to the current question `qi` at time `now`.
    pub open spec fn answer_points(self, qi: u64, answer_hash: Bytes32, caller: Account, now: u64) -> u64 {
        let q = self.question(qi);
        cap_u64(
            points_spec(
                self.is_correct(qi, answer_hash),
                elapsed(now, self.question_start_time),
                q.time_limit as int,
                q.difficulty,
                self.player(caller).current_streak as int,
            ),
        ) as u64
    }

    pub open spec fn answer_submitted(self, qi: u64, answer_hash: Bytes32, caller: Account, now: u64) -> SessionView {
        let correct = self.is_correct(qi, answer_hash);
        let points = self.answer_points(qi, answer_hash, caller, now);
        let streak = cap_u64(new_streak_spec(correct, self.player(caller).current_streak as int)) as u64;
        let p = scored_player(
            self.player(caller),
            correct,
            elapsed(now, self.question_start_time),
            points,
            streak,
        );
        let leads = p.score > self.winning_score;
        SessionView {
            players: self.players.update(player_pos(self.players, caller), p),
            answers: self.answers.push(
                Answer {
                    question_index: qi,
                    account: caller,
                    answer_hash,
                    submit_time: now,
                    is_correct: correct,
                    points,
                },
            ),
            winner: if leads {
                caller
            } else {
                self.winner
            },
            winning_score: if leads {
                p.score
            } else {
                self.winning_score
            },
            ..self
        }
    }

    pub open spec fn ended(self, now: u64) -> SessionView {
        SessionView { status: SessionStatus::Completed, end_time: now, ..self }
    }

    pub open spec fn final_score_error(self, caller: Account) -> Option<TriviaChainError> {
        if self.status != SessionStatus::Active {
            Some(TriviaChainError::SessionNotActive)
        } else if !self.is_player(caller) {
            Some(TriviaChainError::PlayerNotInSession)
        } else if self.player(caller).final_score_submitted || self.player(caller).score > 0 {
            Some(TriviaChainError::AlreadyAnswered)
        } else {
            None
        }
    }

    pub open spec fn final_score_submitted(
        self,
        caller: Account,
        total_score: u64,
        correct_answers: u64,
    ) -> SessionView {
        let leads = total_score > self.winning_score;
        SessionView {
            players: self.players.update(
                player_pos(self.players, caller),
                Player { score: total_score, correct_answers, final_score_submitted: true, ..self.player(caller) },
            ),
            winner: if leads {
                caller
            } else {
                self.winner
            },
            winning_score: if leads {
                total_score
            } else {
                self.winning_score
            },
            ..self
        }
    }
}

/// The position of `a`'s record equals any index that holds it.
pub proof fn lemma_player_pos(players: Seq<Player>, i: int)
    requires
        accounts_distinct(players),
        0 <= i < players.len(),
    ensures
        has_player(players, players[i].account),
        player_pos(players, players[i].account) == i,
{
    let a = players[i].account;
    assert(players[i].account == a);
}

/// The position of the question under `qs[i].index` is `i`.
pub proof fn lemma_question_pos(qs: Seq<QuestionSlot>, i: int)
    requires
        question_indices_distinct(qs),
        0 <= i < qs.len(),
    ensures
        has_question(qs, qs[i].index),
        question_pos(qs, qs[i].index) == i,
{
    let qi = qs[i].index;
    assert(qs[i].index == qi);
}

/// Finds the record of `a` in `players`.
pub fn find_player(players: &Vec<Player>, a: Account) -> (r: Option<usize>)
    requires
        accounts_distinct(players@),
    ensures
        match r {
            Some(i) => i < players@.len() && has_player(players@, a) && i == player_pos(players@, a),
            None => !has_player(players@, a),
        },
{
    let mut i: usize = 0;
    while i < players.len()
        invariant
            i <= players@.len(),
            accounts_distinct(players@),
            forall|k: int| 0 <= k < i ==> (#[trigger] players@[k]).account != a,
        decreases players@.len() - i,
    {
        if players[i].account == a {
            proof {
                lemma_player_pos(players@, i as int);
            }
            return Some(i);
        }
        i = i + 1;
    }
    None
}

/// Finds where question `qi` is stored.
pub fn find_question(qs: &Vec<QuestionSlot>, qi: u64) -> (r: Option<usize>)
    requires
        question_indices_distinct(qs@),
    ensures
        match r {
            Some(i) => i < qs@.len() && has_question(qs@, qi) && i == question_pos(qs@, qi),
            None => !has_question(qs@, qi),
        },
{
    let mut i: usize = 0;
    while i < qs.len()
        invariant
            i <= qs@.len(),
            question_indices_distinct(qs@),
            forall|k: int| 0 <= k < i ==> (#[trigger] qs@[k]).index != qi,
        decreases qs@.len() - i,
    {
        if qs[i].index == qi {
            proof {
                lemma_question_pos(qs@, i as int);
            }
            return Some(i);
        }
        i = i + 1;
    }
    None
}

/// Whether `a` has already answered question `qi`.
pub fn has_answered(answers: &Vec<Answer>, qi: u64, a: Account) -> (r: bool)
    ensures
        r == answered(answers@, qi, a),
{
    let mut i: usize = 0;
    while i < answers.len()
        invariant
            i <= answers@.len(),
            forall|k: int|
                0 <= k < i ==> (#[trigger] answers@[k]).question_index != qi || answers@[k].account != a,
        decreases answers@.len() - i,
    {
        if answers[i].question_index == qi && answers[i].account == a {
            assert(answers@[i as int].question_index == qi && answers@[i as int].account == a);
            return true;
        }
        i = i + 1;
    }
    false
}

impl Session {
    /// A new session in the `Created` state with no players.
    pub fn new(
        session_id: u64,
        host: Account,
        room_code: Bytes32,
        max_players: u64,
        question_duration: u64,
    ) -> (r: Session)
        requires
            question_duration > 0,
        ensures
            r@.wf(),
            r@.session_id == session_id,
            r@.host == host,
            r@.room_code == room_code,
            r@.status == SessionStatus::Created,
            r@.max_players == max_players,
            r@.question_duration == question_duration,
            r@.start_time == 0,
            r@.end_time == 0,
            r@.current_question_index == 0,
            r@.question_start_time == 0,
            r@.players == Seq::<Player>::empty(),
            r@.player_count == 0,
            r@.winner == Account::zero_spec(),
            r@.winning_score == 0,
            r@.questions == Seq::<QuestionSlot>::empty(),
            r@.answers == Seq::<Answer>::empty(),
    {
        Session {
            session_id,
            host,
            room_code,
            status: SessionStatus::Created,
            start_time: 0,
            end_time: 0,
            current_question_index: 0,
            question_start_time: 0,
            question_duration,
            players: Vec::new(),
            player_count: 0,
            max_players,
            winner: Account::zero(),
            winning_score: 0,
            questions: Vec::new(),
            answers: Vec::new(),
        }
    }

    /// Admits `caller` as a player, under the room code and capacity gate.
    /// The zero account stands for nobody and is refused as `Unauthorized`.
    pub fn join(&mut self, room_code: Bytes32, display_name: Bytes32, caller: Account, now: u64) -> (r: Result<
        (),
        TriviaChainError,
    >)
        requires
            old(self)@.wf(),
        ensures
            final(self)@.wf(),
            match r {
                Ok(()) => old(self)@.join_error(room_code, caller) is None
                    && final(self)@ == old(self)@.joined(display_name, caller, now),
                Err(e) => old(self)@.join_error(room_code, caller) == Some(e) && final(self)@ == old(self)@,
            },
    {
        let ghost before = self@;
        if caller.is_zero() {
            return Err(TriviaChainError::Unauthorized);
        }
        if self.room_code != room_code {
            return Err(TriviaChainError::InvalidRoomCode);
        }
        if self.status != SessionStatus::Created {
            return Err(TriviaChainError::SessionAlreadyActive);
        }
        if self.player_count >= self.max_players {
            return Err(TriviaChainError::SessionFull);
        }
        if find_player(&self.players, caller).is_some() {
            return Err(TriviaChainError::PlayerAlreadyJoined);
        }
        let p = Player {
            account: caller,
            display_name,
            score: 0,
            current_streak: 0,
            best_streak: 0,
            correct_answers: 0,
            total_response_time: 0,
            is_active: true,
            join_time: now,
            final_score_submitted: false,
        };
        self.players.push(p);
        self.player_count = self.player_count + 1;
        proof {
            let ps = self.players@;
            assert(ps == before.players.push(p));
            assert forall|i: int, j: int|
                0 <= i < ps.len() && 0 <= j < ps.len() && i != j implies #[trigger] ps[i].account
                != #[trigger] ps[j].account by {
                if i < before.players.len() && j < before.players.len() {
                    assert(ps[i] == before.players[i] && ps[j] == before.players[j]);
                } else if i < before.players.len() {
                    assert(ps[i] == before.players[i]);
                } else {
                    assert(ps[j] == before.players[j]);
                }
            }
            if before.winning_score > 0 {
                let w = player_pos(before.players, before.winner);
                assert(ps[w] == before.players[w]);
                lemma_player_pos(ps, w);
            }
            assert(self@ == before.joined(display_name, caller, now));
        }
        Ok(())
    }

    /// Moves the session from `Created` to `Active`; host only.
    pub fn start(&mut self, caller: Account, now: u64) -> (r: Result<(), TriviaChainError>)
        requires
            old(self)@.wf(),
        ensures
            final(self)@.wf(),
            match r {
                Ok(()) => old(self)@.start_error(caller) is None && final(self)@ == old(self)@.started(now),
                Err(e) => old(self)@.start_error(caller) == Some(e) && final(self)@ == old(self)@,
            },
    {
        if self.host != caller {
            return Err(TriviaChainError::Unauthorized);
        }
        if self.status != SessionStatus::Created {
            return Err(TriviaChainError::SessionAlreadyActive);
        }
        self.status = SessionStatus::Active;
        self.start_time = now;
        Ok(())
    }

    /// Opens question `qi` now; host only, while the session is active.
    /// An earlier question stored under the same index is replaced.
    pub fn start_question(&mut self, qi: u64, meta: QuestionMeta, caller: Account, now: u64) -> (r: Result<
        (),
        TriviaChainError,
    >)
        requires
            old(self)@.wf(),
        ensures
            final(self)@.wf(),
            match r {
                Ok(()) => old(self)@.host_active_error(caller) is None
                    && final(self)@ == old(self)@.question_started(qi, meta, now),
                Err(e) => old(self)@.host_active_error(caller) == Some(e) && final(self)@ == old(self)@,
            },
    {
        let ghost before = self@;
        if self.host != caller {
            return Err(TriviaChainError::Unauthorized);
        }
        if self.status != SessionStatus::Active {
            return Err(TriviaChainError::SessionNotActive);
        }
        let slot = QuestionSlot {
            index: qi,
            question: Question {
                content_hash: meta.content_hash,
                question_type: meta.question_type,
                difficulty: meta.difficulty,
                time_limit: self.question_duration,
                correct_answer_hash: meta.correct_answer_hash,
            },
        };
        match find_question(&self.questions, qi) {
            Some(j) => {
                self.questions.set(j, slot);
                proof {
                    let qs = self.questions@;
                    assert forall|a: int, b: int|
                        0 <= a < qs.len() && 0 <= b < qs.len() && a != b implies #[trigger] qs[a].index
                        != #[trigger] qs[b].index by {
                        if a != j && b != j {
                            assert(qs[a] == before.questions[a] && qs[b] == before.questions[b]);
                        } else if a == j {
                            assert(qs[b] == before.questions[b]);
                        } else {
                            assert(qs[a] == before.questions[a]);
                        }
                    }
                }
            },
            None => {
                self.questions.push(slot);
                proof {
                    let qs = self.questions@;
                    assert forall|a: int, b: int|
                        0 <= a < qs.len() && 0 <= b < qs.len() && a != b implies #[trigger] qs[a].index
                        != #[trigger] qs[b].index by {
                        if a < before.questions.len() && b < before.questions.len() {
                            assert(qs[a] == before.questions[a] && qs[b] == before.questions[b]);
                        } else if a < before.questions.len() {
                            assert(qs[a] == before.questions[a]);
                        } else {
                            assert(qs[b] == before.questions[b]);
                        }
                    }
                }
            },
        }
        self.current_question_index = qi;
        self.question_start_time = now;
        Ok(())
    }

    /// Scores `caller`'s answer to the current question, writes the answer
    /// once, and moves the winner when the new total leads. Returns the points earned.
    pub fn submit_answer(&mut self, qi: u64, answer_hash: Bytes32, caller: Account, now: u64) -> (r: Result<
        u64,
        TriviaChainError,
    >)
        requires
            old(self)@.wf(),
        ensures
            final(self)@.wf(),
            match r {
                Ok(points) => old(self)@.submit_error(qi, caller, now) is None
                    && points == old(self)@.answer_points(qi, answer_hash, caller, now)
                    && final(self)@ == old(self)@.answer_submitted(qi, answer_hash, caller, now),
                Err(e) => old(self)@.submit_error(qi, caller, now) == Some(e) && final(self)@ == old(self)@,
            },
    {
        let ghost before = self@;
        if self.status != SessionStatus::Active {
            return Err(TriviaChainError::SessionNotActive);
        }
        if qi != self.current_question_index {
            return Err(TriviaChainError::InvalidQuestionIndex);
        }
        let pi = match find_player(&self.players, caller) {
            None => {
                return Err(TriviaChainError::PlayerNotInSession);
            },
            Some(i) => i,
        };
        if has_answered(&self.answers, qi, caller) {
            return Err(TriviaChainError::AlreadyAnswered);
        }
        let qpos = match find_question(&self.questions, qi) {
            None => {
                return Err(TriviaChainError::QuestionNotActive);
            },
            Some(j) => j,
        };
        let q = self.questions[qpos].question;
        let start = self.question_start_time;
        if now > start && now - start > q.time_limit {
            return Err(TriviaChainError::QuestionNotActive);
        }
        let response_time: u64 = if now >= start {
            now - start
        } else {
            0
        };
        let correct = answer_hash == q.correct_answer_hash;
        let p = self.players[pi];
        let sc: AnswerScore = calculate_points(correct, response_time, q.time_limit, q.difficulty, p.current_streak);
        let new_p = Player {
            score: saturating_sum(p.score, sc.points),
            current_streak: sc.new_streak,
            best_streak: if p.best_streak >= sc.new_streak {
                p.best_streak
            } else {
                sc.new_streak
            },
            correct_answers: if correct {
                saturating_sum(p.correct_answers, 1)
            } else {
                p.correct_answers
            },
            total_response_time: saturating_sum(p.total_response_time, response_time),
            ..p
        };
        self.players.set(pi, new_p);
        self.answers.push(
            Answer {
                question_index: qi,
                account: caller,
                answer_hash,
                submit_time: now,
                is_correct: correct,
                points: sc.points,
            },
        );
        if new_p.score > self.winning_score {
            self.winner = caller;
            self.winning_score = new_p.score;
        }
        proof {
            let ps = self.players@;
            assert(ps == before.players.update(pi as int, new_p));
            assert forall|i: int, j: int|
                0 <= i < ps.len() && 0 <= j < ps.len() && i != j implies #[trigger] ps[i].account
                != #[trigger] ps[j].account by {
                if i != pi && j != pi {
                    assert(ps[i] == before.players[i] && ps[j] == before.players[j]);
                } else if i == pi {
                    assert(ps[j] == before.players[j]);
                } else {
                    assert(ps[i] == before.players[i]);
                }
            }
            assert forall|i: int| 0 <= i < ps.len() implies (#[trigger] ps[i]).score <= self.winning_score by {
                if i != pi {
                    assert(ps[i] == before.players[i]);
                }
            }
            assert forall|i: int| 0 <= i < ps.len() implies (#[trigger] ps[i]).is_active by {
                if i != pi {
                    assert(ps[i] == before.players[i]);
                }
            }
            if self.winning_score > 0 {
                if new_p.score > before.winning_score {
                    lemma_player_pos(ps, pi as int);
                } else {
                    let w = player_pos(before.players, before.winner);
                    lemma_player_pos(ps, w);
                    if w != pi {
                        assert(ps[w] == before.players[w]);
                    }
                }
            }
            let ans = self.answers@;
            assert forall|i: int, j: int|
                0 <= i < ans.len() && 0 <= j < ans.len() && i != j implies (#[trigger] ans[i]).question_index
                != (#[trigger] ans[j]).question_index || ans[i].account != ans[j].account by {
                if i < before.answers.len() && j < before.answers.len() {
                    assert(ans[i] == before.answers[i] && ans[j] == before.answers[j]);
                } else if i < before.answers.len() {
                    assert(ans[i] == before.answers[i]);
                } else {
                    assert(ans[j] == before.answers[j]);
                }
            }
            assert(self@ == before.answer_submitted(qi, answer_hash, caller, now));
        }
        Ok(sc.points)
    }

    /// Records a player's final tally while the session is active, for games
    /// scored outside the live answer flow: one submission per player, and
    /// only while the player has no score yet.
    pub fn submit_final_score(&mut self, caller: Account, total_score: u64, correct_answers: u64) -> (r:
        Result<(), TriviaChainError>)
        requires
            old(self)@.wf(),
        ensures
            final(self)@.wf(),
            match r {
                Ok(()) => old(self)@.final_score_error(caller) is None
                    && final(self)@ == old(self)@.final_score_submitted(caller, total_score, correct_answers),
                Err(e) => old(self)@.final_score_error(caller) == Some(e) && final(self)@ == old(self)@,
            },
    {
        let ghost before = self@;
        if self.status != SessionStatus::Active {
            return Err(TriviaChainError::SessionNotActive);
        }
        let pi = match find_player(&self.players, caller) {
            None => {
                return Err(TriviaChainError::PlayerNotInSession);
            },
            Some(i) => i,
        };
        let p = self.players[pi];
        if p.final_score_submitted || p.score > 0 {
            return Err(TriviaChainError::AlreadyAnswered);
        }
        let new_p = Player { score: total_score, correct_answers, final_score_submitted: true, ..p };
        self.players.set(pi, new_p);
        if total_score > self.winning_score {
            self.winner = caller;
            self.winning_score = total_score;
        }
        proof {
            let ps = self.players@;
            assert forall|i: int, j: int|
                0 <= i < ps.len() && 0 <= j < ps.len() && i != j implies #[trigger] ps[i].account
                != #[trigger] ps[j].account by {
                if i != pi && j != pi {
                    assert(ps[i] == before.players[i] && ps[j] == before.players[j]);
                } else if i == pi {
                    assert(ps[j] == before.players[j]);
                } else {
                    assert(ps[i] == before.players[i]);
                }
            }
            assert forall|i: int| 0 <= i < ps.len() implies (#[trigger] ps[i]).score <= self.winning_score by {
                if i != pi {
                    assert(ps[i] == before.players[i]);
                }
            }
            assert forall|i: int| 0 <= i < ps.len() implies (#[trigger] ps[i]).is_active by {
                if i != pi {
                    assert(ps[i] == before.players[i]);
                }
            }
            if self.winning_score > 0 {
                if total_score > before.winning_score {
                    lemma_player_pos(ps, pi as int);
                } else {
                    let w = player_pos(before.players, before.winner);
                    lemma_player_pos(ps, w);
                    assert(ps[w] == before.players[w]);
                }
            }
            assert(self@ == before.final_score_submitted(caller, total_score, correct_answers));
        }
        Ok(())
    }

    /// Closes the session; host only, while active. Returns the winner, the
    /// zero account when nobody scored.
    pub fn end(&mut self, caller: Account, now: u64) -> (r: Result<Account, TriviaChainError>)
        requires
            old(self)@.wf(),
        ensures
            final(self)@.wf(),
            match r {
                Ok(w) => old(self)@.host_active_error(caller) is None && w == old(self)@.winner
                    && final(self)@ == old(self)@.ended(now),
                Err(e) => old(self)@.host_active_error(caller) == Some(e) && final(self)@ == old(self)@,
            },
    {
        if self.host != caller {
            return Err(TriviaChainError::Unauthorized);
        }
        if self.status != SessionStatus::Active {
            return Err(TriviaChainError::SessionNotActive);
        }
        self.status = SessionStatus::Completed;
        self.end_time = now;
        Ok(self.winner)
    }
}

} // verus!
