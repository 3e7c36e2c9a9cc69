//! Properties that hold across operations of the store.

use vstd::prelude::*;
use crate::types::{Account, Bytes32, SessionStatus, TriviaChainError};
use crate::session::{SessionView, accounts_distinct, answered, has_player, player_pos};
use crate::chain::{ChainView, completed_count, lemma_completed_count_bound, lemma_games_played_bound};

verus! {

/// In every well-formed store (and every operation keeps the store well
/// formed) a session's player count equals the length of its player list,
/// and no account appears twice in that list.
pub proof fn roster_consistent(c: ChainView, sid: u64)
    requires
        c.wf(),
        c.has_session(sid),
    ensures
        c.session(sid).player_count == c.session(sid).players.len(),
        accounts_distinct(c.session(sid).players),
{
    assert(c.sessions[sid - 1].wf());
}

/// For an otherwise admissible join (a real account, right room code,
/// session not started, caller not yet in it), the join is refused as full exactly when the player
/// count has reached the maximum, and accepted one place below it.
pub proof fn capacity_gate(c: ChainView, sid: u64, room_code: Bytes32, caller: Account)
    requires
        c.wf(),
        c.has_session(sid),
        c.session(sid).room_code == room_code,
        c.session(sid).status == SessionStatus::Created,
        caller != Account::zero_spec(),
        !c.session(sid).is_player(caller),
    ensures
        c.session(sid).player_count == c.session(sid).max_players ==> c.join_session_error(sid, room_code, caller)
            == Some(TriviaChainError::SessionFull),
        c.session(sid).player_count + 1 == c.session(sid).max_players ==> c.join_session_error(
            sid,
            room_code,
            caller,
        ) is None,
{
}

/// Once an answer of `caller` to question `qi` has been accepted, any further
/// submission for the same session, question and caller is refused with
/// `AlreadyAnswered`, at any later time and whatever answer it carries (the
/// refusal does not depend on the answer, and a refusal changes nothing).
pub proof fn second_answer_rejected(
    c: ChainView,
    sid: u64,
    qi: u64,
    answer_hash: Bytes32,
    caller: Account,
    first_time: u64,
    later_time: u64,
)
    requires
        c.wf(),
        c.submit_answer_error(sid, qi, caller, first_time) is None,
    ensures
        ({
            let after = c.with_session(sid, c.session(sid).answer_submitted(qi, answer_hash, caller, first_time));
            after.submit_answer_error(sid, qi, caller, later_time) == Some(TriviaChainError::AlreadyAnswered)
        }),
{
    let s = c.session(sid);
    assert(c.sessions[sid - 1].wf());
    let s2 = s.answer_submitted(qi, answer_hash, caller, first_time);
    let after = c.with_session(sid, s2);
    assert(after.session(sid) == s2);
    let pos = player_pos(s.players, caller);
    assert(s2.players[pos].account == caller);
    assert(s2.is_player(caller));
    let last = s.answers.len() as int;
    assert(s2.answers[last].question_index == qi && s2.answers[last].account == caller);
    assert(answered(s2.answers, qi, caller));
}

/// Once `caller`'s final tally has been accepted, any further final tally of
/// the same caller in the same session is refused with `AlreadyAnswered`,
/// whatever it carries (and a refusal changes nothing).
pub proof fn second_final_score_rejected(
    c: ChainView,
    sid: u64,
    caller: Account,
    total_score: u64,
    correct_answers: u64,
)
    requires
        c.wf(),
        c.final_score_error(sid, caller) is None,
    ensures
        ({
            let after = c.with_session(
                sid,
                c.session(sid).final_score_submitted(caller, total_score, correct_answers),
            );
            after.final_score_error(sid, caller) == Some(TriviaChainError::AlreadyAnswered)
        }),
{
    let s = c.session(sid);
    assert(c.sessions[sid - 1].wf());
    let t = s.final_score_submitted(caller, total_score, correct_answers);
    let after = c.with_session(sid, t);
    assert(after.session(sid) == t);
    let pos = player_pos(s.players, caller);
    assert(s.players[pos].account == caller);
    assert(t.players[pos].account == caller);
    assert(has_player(t.players, caller));
    assert forall|j: int| 0 <= j < t.players.len() && j != pos implies t.players[j].account != caller by {
        assert(t.players[j] == s.players[j]);
    }
    assert(player_pos(t.players, caller) == pos);
}

/// The recorded winner is the zero account exactly when nobody has scored;
/// otherwise it is a player holding the highest score, which is the winning score.
pub proof fn winner_reflects_scores(c: ChainView, sid: u64)
    requires
        c.wf(),
        c.has_session(sid),
    ensures
        ({
            let s = c.session(sid);
            &&& (s.winner == Account::zero_spec()) == (s.winning_score == 0)
            &&& (s.winning_score == 0) == (forall|i: int| 0 <= i < s.players.len() ==> #[trigger] s.players[i].score == 0)
            &&& s.winner != Account::zero_spec() ==> s.is_player(s.winner)
                && s.player(s.winner).score == s.winning_score
                && forall|i: int| 0 <= i < s.players.len() ==> #[trigger] s.players[i].score <= s.winning_score
        }),
{
    let s = c.session(sid);
    assert(c.sessions[sid - 1].wf());
    if s.winning_score > 0 {
        let w = player_pos(s.players, s.winner);
        assert(s.players[w].account != Account::zero_spec());
        assert(s.players[w].score != 0);
    }
}

/// An accepted answer never lowers the answering player's score nor the
/// session's winning score.
pub proof fn answer_keeps_scores_monotone(s: SessionView, qi: u64, answer_hash: Bytes32, caller: Account, now: u64)
    requires
        s.wf(),
        s.submit_error(qi, caller, now) is None,
    ensures
        ({
            let t = s.answer_submitted(qi, answer_hash, caller, now);
            &&& t.is_player(caller)
            &&& t.player(caller).score >= s.player(caller).score
            &&& t.winning_score >= s.winning_score
        }),
{
    let t = s.answer_submitted(qi, answer_hash, caller, now);
    let pos = player_pos(s.players, caller);
    assert(s.players[pos].account == caller);
    assert(t.players[pos].account == caller);
    assert(has_player(t.players, caller));
    assert forall|j: int| 0 <= j < t.players.len() && j != pos implies t.players[j].account != caller by {
        assert(t.players[j] == s.players[j]);
    }
    assert(player_pos(t.players, caller) == pos);
}

/// Closing a session gives each of its players exactly one more game
/// played, leaves every other account's statistics as they were, and never
/// lowers any account's best score.
pub proof fn end_session_stats(before: ChainView, after: ChainView, sid: u64, now: u64, a: Account)
    requires
        before.wf(),
        before.has_session(sid),
        before.closed(after, sid, now),
    ensures
        before.session(sid).is_player(a) ==> after.stats_of(a).games_played == before.stats_of(a).games_played + 1,
        !before.session(sid).is_player(a) ==> after.stats_of(a) == before.stats_of(a),
        after.stats_of(a).best_score >= before.stats_of(a).best_score,
{
    let s = before.session(sid);
    lemma_completed_count_bound(before.sessions);
    lemma_games_played_bound(before.stats, a, completed_count(before.sessions) as int);
    if s.is_player(a) {
        let k = player_pos(s.players, a);
        assert(s.players[k].account == a);
    }
}

} // verus!
