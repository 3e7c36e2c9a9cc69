//! The session store: sequential session identifiers, authorization and the
//! statistics roll-up at close.

use vstd::prelude::*;
use crate::types::{Account, Bytes32, SessionStatus, TriviaChainError};
use crate::session::{QuestionMeta, Session, SessionView, has_player, find_player, player_pos};
use crate::stats::{
    PlayerStats, StatsEntry, find_stats, has_stats, stats_pos, game_recorded, record_session, stats_keys_distinct, stats_of,
    zero_stats, lemma_stats_pos,
};
use crate::leaderboard::{LeaderboardEntry, is_ranking, leaderboard_of, rows_of};

verus! {

/// The session store: sessions addressed by sequential identifiers starting
/// at 1, and the statistics table keyed by account.
pub struct TriviaChain {
    pub owner: Account,
    pub next_session_id: u64,
    pub sessions: Vec<Session>,
    pub stats: Vec<StatsEntry>,
}

/// The mathematical value of a [`TriviaChain`].
pub struct ChainView {
    pub owner: Account,
    pub next_session_id: u64,
    pub sessions: Seq<SessionView>,
    pub stats: Seq<StatsEntry>,
}

impl View for TriviaChain {
    type V = ChainView;

    open spec fn view(&self) -> ChainView {
        ChainView {
            owner: self.owner,
            next_session_id: self.next_session_id,
            sessions: self.sessions@.map_values(|s: Session| s@),
            stats: self.stats@,
        }
    }
}

/// A summary of a session's public fields.
#[derive(Clone, Copy, Debug, PartialEq, Eq, Structural)]
pub struct SessionInfo {
    pub session_id: u64,
    pub host: Account,
    pub status: SessionStatus,
    pub start_time: u64,
    pub end_time: u64,
    pub current_question_index: u64,
    pub question_start_time: u64,
    pub question_duration: u64,
    pub player_count: u64,
    pub max_players: u64,
    pub winner: Account,
    pub winning_score: u64,
}

/// How many of `sessions` are completed.
pub open spec fn completed_count(sessions: Seq<SessionView>) -> nat
    decreases sessions.len(),
{
    if sessions.len() == 0 {
        0
    } else {
        completed_count(sessions.drop_last()) + if sessions.last().status == SessionStatus::Completed {
            1nat
        } else {
            0nat
        }
    }
}

/// Completed sessions are among all sessions.
pub proof fn lemma_completed_count_bound(sessions: Seq<SessionView>)
    ensures
        completed_count(sessions) <= sessions.len(),
    decreases sessions.len(),
{
    if sessions.len() > 0 {
        lemma_completed_count_bound(sessions.drop_last());
    }
}

/// Replacing one session changes the count by that session's status alone.
pub proof fn lemma_completed_count_update(sessions: Seq<SessionView>, i: int, x: SessionView)
    requires
        0 <= i < sessions.len(),
    ensures
        completed_count(sessions.update(i, x)) + (if sessions[i].status == SessionStatus::Completed {
            1int
        } else {
            0int
        }) == completed_count(sessions) + (if x.status == SessionStatus::Completed {
            1int
        } else {
            0int
        }),
    decreases sessions.len(),
{
    let u = sessions.update(i, x);
    if i == sessions.len() - 1 {
        assert(u.drop_last() =~= sessions.drop_last());
    } else {
        assert(u.drop_last() =~= sessions.drop_last().update(i, x));
        lemma_completed_count_update(sessions.drop_last(), i, x);
    }
}

/// A bound on every row's games played bounds every account's.
pub proof fn lemma_games_played_bound(es: Seq<StatsEntry>, a: Account, bound: int)
    requires
        stats_keys_distinct(es),
        bound >= 0,
        forall|i: int| 0 <= i < es.len() ==> (#[trigger] es[i]).stats.games_played <= bound,
    ensures
        stats_of(es, a).games_played <= bound,
{
    if has_stats(es, a) {
        let k = stats_pos(es, a);
        assert(es[k].stats.games_played <= bound);
    }
}

impl ChainView {
    /// Identifiers are dense from 1, every session is well formed, and each
    /// account has at most one statistics row.
    pub open spec fn wf(self) -> bool {
        &&& self.next_session_id == self.sessions.len() + 1
        &&& forall|k: int|
            0 <= k < self.sessions.len() ==> (#[trigger] self.sessions[k]).session_id == k + 1
                && self.sessions[k].wf()
        &&& stats_keys_distinct(self.stats)
        &&& forall|i: int|
            0 <= i < self.stats.len() ==> (#[trigger] self.stats[i]).stats.games_played <= completed_count(
                self.sessions,
            )
    }

    pub open spec fn has_session(self, sid: u64) -> bool {
        1 <= sid <= self.sessions.len()
    }

    pub open spec fn session(self, sid: u64) -> SessionView {
        self.sessions[sid - 1]
    }

    /// The statistics of account `a`.
    pub open spec fn stats_of(self, a: Account) -> PlayerStats {
        stats_of(self.stats, a)
    }

    /// This store with session `sid` replaced by `s`.
    pub open spec fn with_session(self, sid: u64, s: SessionView) -> ChainView {
        ChainView { sessions: self.sessions.update(sid - 1, s), ..self }
    }

    /// The store after creating a session with identifier `next_session_id`.
    pub open spec fn created(
        self,
        room_code: Bytes32,
        max_players: u64,
        question_duration: u64,
        caller: Account,
    ) -> ChainView {
        ChainView {
            next_session_id: (self.next_session_id + 1) as u64,
            sessions: self.sessions.push(
                SessionView {
                    session_id: self.next_session_id,
                    host: caller,
                    room_code,
                    status: SessionStatus::Created,
                    start_time: 0,
                    end_time: 0,
                    current_question_index: 0,
                    question_start_time: 0,
                    question_duration,
                    players: Seq::empty(),
                    player_count: 0,
                    max_players,
                    winner: Account::zero_spec(),
                    winning_score: 0,
                    questions: Seq::empty(),
                    answers: Seq::empty(),
                },
            ),
            ..self
        }
    }

    pub open spec fn join_session_error(self, sid: u64, room_code: Bytes32, caller: Account) -> Option<
        TriviaChainError,
    > {
        if !self.has_session(sid) {
            Some(TriviaChainError::SessionNotFound)
        } else {
            self.session(sid).join_error(room_code, caller)
        }
    }

    pub open spec fn start_session_error(self, sid: u64, caller: Account) -> Option<TriviaChainError> {
        if !self.has_session(sid) {
            Some(TriviaChainError::SessionNotFound)
        } else {
            self.session(sid).start_error(caller)
        }
    }

    /// Rejections of `start_question` and `end_session`.
    pub open spec fn host_active_error(self, sid: u64, caller: Account) -> Option<TriviaChainError> {
        if !self.has_session(sid) {
            Some(TriviaChainError::SessionNotFound)
        } else {
            self.session(sid).host_active_error(caller)
        }
    }

    pub open spec fn submit_answer_error(self, sid: u64, qi: u64, caller: Account, now: u64) -> Option<
        TriviaChainError,
    > {
        if !self.has_session(sid) {
            Some(TriviaChainError::SessionNotFound)
        } else {
            self.session(sid).submit_error(qi, caller, now)
        }
    }

    pub open spec fn final_score_error(self, sid: u64, caller: Account) -> Option<TriviaChainError> {
        if !self.has_session(sid) {
            Some(TriviaChainError::SessionNotFound)
        } else {
            self.session(sid).final_score_error(caller)
        }
    }

    /// `after` is this store once session `sid` closed at `now`: the session
    /// is completed, and each of its players' statistics took in one more game,
    /// with one more win for the winner when somebody scored.
    pub open spec fn closed(self, after: ChainView, sid: u64, now: u64) -> bool {
        let s = self.session(sid);
        &&& after.owner == self.owner
        &&& after.next_session_id == self.next_session_id
        &&& after.sessions == self.sessions.update(sid - 1, s.ended(now))
        &&& forall|k: int|
            0 <= k < s.players.len() ==> after.stats_of((#[trigger] s.players[k]).account) == game_recorded(
                self.stats_of(s.players[k].account),
                s.players[k],
                s.winning_score > 0 && s.players[k].account == s.winner,
            )
        &&& forall|a: Account| !has_player(s.players, a) ==> #[trigger] after.stats_of(a) == self.stats_of(a)
    }
}

impl TriviaChain {
    /// An empty store with no owner; the first session gets identifier 1.
    pub fn new() -> (r: TriviaChain)
        ensures
            r@.wf(),
            r@.owner == Account::zero_spec(),
            r@.next_session_id == 1,
            r@.sessions.len() == 0,
            r@.stats.len() == 0,
    {
        let r = TriviaChain { owner: Account::zero(), next_session_id: 1, sessions: Vec::new(), stats: Vec::new() };
        proof {
            assert(r@.sessions =~= Seq::<SessionView>::empty());
        }
        r
    }

    /// Claims ownership for `caller`; only once.
    pub fn initialize(&mut self, caller: Account) -> (r: Result<(), TriviaChainError>)
        requires
            old(self)@.wf(),
        ensures
            final(self)@.wf(),
            match r {
                Ok(()) => old(self)@.owner == Account::zero_spec() && final(self)@ == (ChainView {
                    owner: caller,
                    ..old(self)@
                }),
                Err(e) => old(self)@.owner != Account::zero_spec() && e == TriviaChainError::Unauthorized
                    && final(self)@ == old(self)@,
            },
    {
        if !self.owner.is_zero() {
            return Err(TriviaChainError::Unauthorized);
        }
        self.owner = caller;
        Ok(())
    }

    /// Opens a new session hosted by `caller` and returns its identifier.
    /// A zero question duration is rejected.
    pub fn create_session(
        &mut self,
        room_code: Bytes32,
        max_players: u64,
        question_duration: u64,
        caller: Account,
    ) -> (r: Result<u64, TriviaChainError>)
        requires
            old(self)@.wf(),
            old(self)@.next_session_id < u64::MAX,
        ensures
            final(self)@.wf(),
            match r {
                Ok(id) => question_duration > 0 && id == old(self)@.next_session_id
                    && final(self)@ == old(self)@.created(room_code, max_players, question_duration, caller),
                Err(e) => question_duration == 0 && e == TriviaChainError::InvalidDuration
                    && final(self)@ == old(self)@,
            },
    {
        if question_duration == 0 {
            return Err(TriviaChainError::InvalidDuration);
        }
        let ghost before = self@;
        let id = self.next_session_id;
        let s = Session::new(id, caller, room_code, max_players, question_duration);
        self.sessions.push(s);
        self.next_session_id = id + 1;
        proof {
            assert(self@.sessions =~= before.created(room_code, max_players, question_duration, caller).sessions);
            assert(self@.sessions.drop_last() =~= before.sessions);
        }
        Ok(id)
    }
    /// Where session `sid` is stored.
    fn session_index(&self, sid: u64) -> (r: Option<usize>)
        requires
            self@.wf(),
        ensures
            match r {
                Some(i) => self@.has_session(sid) && i == sid - 1 && i < self.sessions@.len(),
                None => !self@.has_session(sid),
            },
    {
        if sid == 0 {
            return None;
        }
        let i: u64 = sid - 1;
        if (i as u128) < (self.sessions.len() as u128) {
            Some(i as usize)
        } else {
            None
        }
    }

    /// Admits `caller` to session `session_id` under its room code and capacity.
    pub fn join_session(
        &mut self,
        session_id: u64,
        room_code: Bytes32,
        display_name: Bytes32,
        caller: Account,
        now: u64,
    ) -> (r: Result<(), TriviaChainError>)
        requires
            old(self)@.wf(),
        ensures
            final(self)@.wf(),
            match r {
                Ok(()) => old(self)@.join_session_error(session_id, room_code, caller) is None
                    && final(self)@ == old(self)@.with_session(
                    session_id,
                    old(self)@.session(session_id).joined(display_name, caller, now),
                ),
                Err(e) => old(self)@.join_session_error(session_id, room_code, caller) == Some(e)
                    && final(self)@ == old(self)@,
            },
    {
        let ghost before = self@;
        let idx = match self.session_index(session_id) {
            None => {
                return Err(TriviaChainError::SessionNotFound);
            },
            Some(i) => i,
        };
        let r = self.sessions[idx].join(room_code, display_name, caller, now);
        proof {
            assert(self@.sessions =~= before.sessions.update(idx as int, self.sessions@[idx as int]@));
            lemma_completed_count_update(before.sessions, idx as int, self.sessions@[idx as int]@);
            if r is Err {
                assert(self@.sessions =~= before.sessions);
            }
        }
        r
    }

    /// Starts session `session_id`; host only, once.
    pub fn start_session(&mut self, session_id: u64, caller: Account, now: u64) -> (r: Result<
        (),
        TriviaChainError,
    >)
        requires
            old(self)@.wf(),
        ensures
            final(self)@.wf(),
            match r {
                Ok(()) => old(self)@.start_session_error(session_id, caller) is None
                    && final(self)@ == old(self)@.with_session(session_id, old(self)@.session(session_id).started(now)),
                Err(e) => old(self)@.start_session_error(session_id, caller) == Some(e) && final(self)@ == old(self)@,
            },
    {
        let ghost before = self@;
        let idx = match self.session_index(session_id) {
            None => {
                return Err(TriviaChainError::SessionNotFound);
            },
            Some(i) => i,
        };
        let r = self.sessions[idx].start(caller, now);
        proof {
            assert(self@.sessions =~= before.sessions.update(idx as int, self.sessions@[idx as int]@));
            lemma_completed_count_update(before.sessions, idx as int, self.sessions@[idx as int]@);
            if r is Err {
                assert(self@.sessions =~= before.sessions);
            }
        }
        r
    }

    /// Opens question `question_index` of session `session_id` now; host only,
    /// while the session is active. Its time limit is the session's question duration.
    pub fn start_question(
        &mut self,
        session_id: u64,
        question_index: u64,
        meta: QuestionMeta,
        caller: Account,
        now: u64,
    ) -> (r: Result<(), TriviaChainError>)
        requires
            old(self)@.wf(),
        ensures
            final(self)@.wf(),
            match r {
                Ok(()) => old(self)@.host_active_error(session_id, caller) is None
                    && final(self)@ == old(self)@.with_session(
                    session_id,
                    old(self)@.session(session_id).question_started(question_index, meta, now),
                ),
                Err(e) => old(self)@.host_active_error(session_id, caller) == Some(e) && final(self)@ == old(self)@,
            },
    {
        let ghost before = self@;
        let idx = match self.session_index(session_id) {
            None => {
                return Err(TriviaChainError::SessionNotFound);
            },
            Some(i) => i,
        };
        let r = self.sessions[idx].start_question(question_index, meta, caller, now);
        proof {
            assert(self@.sessions =~= before.sessions.update(idx as int, self.sessions@[idx as int]@));
            lemma_completed_count_update(before.sessions, idx as int, self.sessions@[idx as int]@);
            if r is Err {
                assert(self@.sessions =~= before.sessions);
            }
        }
        r
    }

    /// Scores `caller`'s answer to the current question of session
    /// `session_id`; returns the points earned.
    pub fn submit_answer(
        &mut self,
        session_id: u64,
        question_index: u64,
        answer_hash: Bytes32,
        caller: Account,
        now: u64,
    ) -> (r: Result<u64, TriviaChainError>)
        requires
            old(self)@.wf(),
        ensures
            final(self)@.wf(),
            match r {
                Ok(points) => old(self)@.submit_answer_error(session_id, question_index, caller, now) is None
                    && points == old(self)@.session(session_id).answer_points(question_index, answer_hash, caller, now)
                    && final(self)@ == old(self)@.with_session(
                    session_id,
                    old(self)@.session(session_id).answer_submitted(question_index, answer_hash, caller, now),
                ),
                Err(e) => old(self)@.submit_answer_error(session_id, question_index, caller, now) == Some(e)
                    && final(self)@ == old(self)@,
            },
    {
        let ghost before = self@;
        let idx = match self.session_index(session_id) {
            None => {
                return Err(TriviaChainError::SessionNotFound);
            },
            Some(i) => i,
        };
        let r = self.sessions[idx].submit_answer(question_index, answer_hash, caller, now);
        proof {
            assert(self@.sessions =~= before.sessions.update(idx as int, self.sessions@[idx as int]@));
            lemma_completed_count_update(before.sessions, idx as int, self.sessions@[idx as int]@);
            if r is Err {
                assert(self@.sessions =~= before.sessions);
            }
        }
        r
    }

    /// Records `caller`'s final tally for the completed session `session_id`.
    pub fn submit_final_score(
        &mut self,
        session_id: u64,
        total_score: u64,
        correct_answers: u64,
        caller: Account,
    ) -> (r: Result<(), TriviaChainError>)
        requires
            old(self)@.wf(),
        ensures
            final(self)@.wf(),
            match r {
                Ok(()) => old(self)@.final_score_error(session_id, caller) is None
                    && final(self)@ == old(self)@.with_session(
                    session_id,
                    old(self)@.session(session_id).final_score_submitted(caller, total_score, correct_answers),
                ),
                Err(e) => old(self)@.final_score_error(session_id, caller) == Some(e) && final(self)@ == old(self)@,
            },
    {
        let ghost before = self@;
        let idx = match self.session_index(session_id) {
            None => {
                return Err(TriviaChainError::SessionNotFound);
            },
            Some(i) => i,
        };
        let r = self.sessions[idx].submit_final_score(caller, total_score, correct_answers);
        proof {
            assert(self@.sessions =~= before.sessions.update(idx as int, self.sessions@[idx as int]@));
            lemma_completed_count_update(before.sessions, idx as int, self.sessions@[idx as int]@);
            if r is Err {
                assert(self@.sessions =~= before.sessions);
            }
        }
        r
    }

    /// Closes session `session_id`; host only, while active. Folds every
    /// player's result into the statistics table and returns the winner (the
    /// zero account when nobody scored).
    pub fn end_session(&mut self, session_id: u64, caller: Account, now: u64) -> (r: Result<
        Account,
        TriviaChainError,
    >)
        requires
            old(self)@.wf(),
        ensures
            final(self)@.wf(),
            match r {
                Ok(w) => old(self)@.host_active_error(session_id, caller) is None
                    && w == old(self)@.session(session_id).winner
                    && old(self)@.closed(final(self)@, session_id, now),
                Err(e) => old(self)@.host_active_error(session_id, caller) == Some(e) && final(self)@ == old(self)@,
            },
    {
        let ghost before = self@;
        let idx = match self.session_index(session_id) {
            None => {
                return Err(TriviaChainError::SessionNotFound);
            },
            Some(i) => i,
        };
        let r = self.sessions[idx].end(caller, now);
        proof {
            assert(self@.sessions =~= before.sessions.update(idx as int, self.sessions@[idx as int]@));
        }
        match r {
            Err(e) => {
                proof {
                    assert(self@.sessions =~= before.sessions);
                }
                Err(e)
            },
            Ok(w) => {
                let has_winner = self.sessions[idx].winning_score > 0;
                record_session(&mut self.stats, &self.sessions[idx].players, w, has_winner);
                proof {
                    let es = self.stats@;
                    let sv = before.session(session_id);
                    let bound = completed_count(before.sessions) as int;
                    assert(before.sessions[idx as int] == sv);
                    assert(sv.status == SessionStatus::Active);
                    assert(self@.sessions == before.sessions.update(idx as int, sv.ended(now)));
                    lemma_completed_count_update(before.sessions, idx as int, sv.ended(now));
                    assert(completed_count(self@.sessions) == bound + 1);
                    assert forall|i: int| 0 <= i < es.len() implies (#[trigger] es[i]).stats.games_played
                        <= completed_count(self@.sessions) by {
                        let a = es[i].account;
                        lemma_stats_pos(es, i);
                        lemma_games_played_bound(before.stats, a, bound);
                        if has_player(sv.players, a) {
                            let k = player_pos(sv.players, a);
                            assert(sv.players[k].account == a);
                        }
                    }
                }
                Ok(w)
            },
        }
    }

    /// The winner recorded for session `session_id`; the zero account when
    /// there is none or the session is unknown.
    pub fn get_winner(&self, session_id: u64) -> (r: Account)
        requires
            self@.wf(),
        ensures
            r == (if self@.has_session(session_id) {
                self@.session(session_id).winner
            } else {
                Account::zero_spec()
            }),
    {
        match self.session_index(session_id) {
            None => Account::zero(),
            Some(i) => self.sessions[i].winner,
        }
    }

    /// The score of `player` in session `session_id`; zero when either is unknown.
    pub fn get_player_score(&self, session_id: u64, player: Account) -> (r: u64)
        requires
            self@.wf(),
        ensures
            r == (if self@.has_session(session_id) && self@.session(session_id).is_player(player) {
                self@.session(session_id).player(player).score
            } else {
                0
            }),
    {
        match self.session_index(session_id) {
            None => 0,
            Some(i) => {
                let s = &self.sessions[i];
                match find_player(&s.players, player) {
                    None => 0,
                    Some(j) => s.players[j].score,
                }
            },
        }
    }

    /// The cross-session statistics of `account`; all zeros before its first finished game.
    pub fn get_player_stats(&self, account: Account) -> (r: PlayerStats)
        requires
            self@.wf(),
        ensures
            r == self@.stats_of(account),
    {
        match find_stats(&self.stats, account) {
            None => PlayerStats::zero(),
            Some(j) => {
                proof {
                    lemma_stats_pos(self.stats@, j as int);
                }
                self.stats[j].stats
            },
        }
    }

    /// The ranked players of session `session_id`: each once, highest score
    /// first, ties in join order.
    pub fn get_leaderboard(&self, session_id: u64) -> (r: Result<Vec<LeaderboardEntry>, TriviaChainError>)
        requires
            self@.wf(),
        ensures
            match r {
                Ok(rows) => self@.has_session(session_id) && exists|order: Seq<usize>|
                    is_ranking(self@.session(session_id).players, order) && rows@ == rows_of(
                        self@.session(session_id).players,
                        order,
                    ),
                Err(e) => !self@.has_session(session_id) && e == TriviaChainError::SessionNotFound,
            },
    {
        match self.session_index(session_id) {
            None => Err(TriviaChainError::SessionNotFound),
            Some(i) => Ok(leaderboard_of(&self.sessions[i].players)),
        }
    }

    /// A summary of session `session_id`, if it exists.
    pub fn get_session_info(&self, session_id: u64) -> (r: Option<SessionInfo>)
        requires
            self@.wf(),
        ensures
            match r {
                Some(info) => self@.has_session(session_id) && info == (SessionInfo {
                    session_id: self@.session(session_id).session_id,
                    host: self@.session(session_id).host,
                    status: self@.session(session_id).status,
                    start_time: self@.session(session_id).start_time,
                    end_time: self@.session(session_id).end_time,
                    current_question_index: self@.session(session_id).current_question_index,
                    question_start_time: self@.session(session_id).question_start_time,
                    question_duration: self@.session(session_id).question_duration,
                    player_count: self@.session(session_id).player_count,
                    max_players: self@.session(session_id).max_players,
                    winner: self@.session(session_id).winner,
                    winning_score: self@.session(session_id).winning_score,
                }),
                None => !self@.has_session(session_id),
            },
    {
        match self.session_index(session_id) {
            None => None,
            Some(i) => {
                let s = &self.sessions[i];
                Some(
                    SessionInfo {
                        session_id: s.session_id,
                        host: s.host,
                        status: s.status,
                        start_time: s.start_time,
                        end_time: s.end_time,
                        current_question_index: s.current_question_index,
                        question_start_time: s.question_start_time,
                        question_duration: s.question_duration,
                        player_count: s.player_count,
                        max_players: s.max_players,
                        winner: s.winner,
                        winning_score: s.winning_score,
                    },
                )
            },
        }
    }

    /// The accounts of session `session_id` in join order; empty when unknown.
    pub fn get_player_list(&self, session_id: u64) -> (r: Vec<Account>)
        requires
            self@.wf(),
        ensures
            self@.has_session(session_id) ==> r@ == self@.session(session_id).players.map_values(
                |p: crate::session::Player| p.account,
            ),
            !self@.has_session(session_id) ==> r@.len() == 0,
    {
        let mut out: Vec<Account> = Vec::new();
        match self.session_index(session_id) {
            None => {},
            Some(i) => {
                let ps = &self.sessions[i].players;
                let mut k: usize = 0;
                while k < ps.len()
                    invariant
                        k <= ps@.len(),
                        out@ == ps@.map_values(|p: crate::session::Player| p.account).take(k as int),
                    decreases ps@.len() - k,
                {
                    out.push(ps[k].account);
                    proof {
                        assert(out@ =~= ps@.map_values(|p: crate::session::Player| p.account).take(k + 1));
                    }
                    k = k + 1;
                }
                proof {
                    assert(out@ =~= ps@.map_values(|p: crate::session::Player| p.account));
                }
            },
        }
        out
    }
}

} // verus!
