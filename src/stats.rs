//! Cross-session player statistics, keyed by account and updated when a
//! session closes.

use vstd::prelude::*;
use crate::types::Account;
use crate::scoring::{cap_u64, saturating_sum};
use crate::session::{Player, accounts_distinct, has_player, max_int};

verus! {

/// Cross-session statistics of one account. Counters stop at the largest `u64`.
#[derive(Clone, Copy, Debug, PartialEq, Eq, Structural)]
pub struct PlayerStats {
    pub games_played: u64,
    pub total_wins: u64,
    pub total_score: u64,
    pub best_score: u64,
    pub total_correct_answers: u64,
    pub longest_streak: u64,
}

/// The statistics of an account that has never finished a game.
pub open spec fn zero_stats() -> PlayerStats {
    PlayerStats {
        games_played: 0,
        total_wins: 0,
        total_score: 0,
        best_score: 0,
        total_correct_answers: 0,
        longest_streak: 0,
    }
}

impl PlayerStats {
    pub fn zero() -> (r: PlayerStats)
        ensures
            r == zero_stats(),
    {
        PlayerStats {
            games_played: 0,
            total_wins: 0,
            total_score: 0,
            best_score: 0,
            total_correct_answers: 0,
            longest_streak: 0,
        }
    }
}

/// One row of the statistics table.
#[derive(Clone, Copy, Debug, PartialEq, Eq, Structural)]
pub struct StatsEntry {
    pub account: Account,
    pub stats: PlayerStats,
}

pub open spec fn has_stats(es: Seq<StatsEntry>, a: Account) -> bool {
    exists|i: int| 0 <= i < es.len() && #[trigger] es[i].account == a
}

pub open spec fn stats_pos(es: Seq<StatsEntry>, a: Account) -> int {
    if has_stats(es, a) {
        choose|i: int| 0 <= i < es.len() && #[trigger] es[i].account == a
    } else {
        -1
    }
}

/// Each account has at most one row.
pub open spec fn stats_keys_distinct(es: Seq<StatsEntry>) -> bool {
    forall|i: int, j: int|
        0 <= i < es.len() && 0 <= j < es.len() && i != j ==> #[trigger] es[i].account != #[trigger] es[j].account
}

/// The statistics of `a`: its row, or all zeros.
pub open spec fn stats_of(es: Seq<StatsEntry>, a: Account) -> PlayerStats {
    if has_stats(es, a) {
        es[stats_pos(es, a)].stats
    } else {
        zero_stats()
    }
}

/// `s` after one more finished game in which the player ended as `p`.
pub open spec fn game_recorded(s: PlayerStats, p: Player, won: bool) -> PlayerStats {
    PlayerStats {
        games_played: cap_u64(s.games_played + 1) as u64,
        total_wins: (if won {
            cap_u64(s.total_wins + 1)
        } else {
            s.total_wins as int
        }) as u64,
        total_score: cap_u64(s.total_score + p.score) as u64,
        best_score: max_int(s.best_score as int, p.score as int) as u64,
        total_correct_answers: cap_u64(s.total_correct_answers + p.correct_answers) as u64,
        longest_streak: max_int(s.longest_streak as int, p.best_streak as int) as u64,
    }
}

pub proof fn lemma_stats_pos(es: Seq<StatsEntry>, i: int)
    requires
        stats_keys_distinct(es),
        0 <= i < es.len(),
    ensures
        has_stats(es, es[i].account),
        stats_pos(es, es[i].account) == i,
        stats_of(es, es[i].account) == es[i].stats,
{
    let a = es[i].account;
    assert(es[i].account == a);
}

/// Finds the row of `a`.
pub fn find_stats(es: &Vec<StatsEntry>, a: Account) -> (r: Option<usize>)
    requires
        stats_keys_distinct(es@),
    ensures
        match r {
            Some(i) => i < es@.len() && has_stats(es@, a) && i == stats_pos(es@, a),
            None => !has_stats(es@, a),
        },
{
    let mut i: usize = 0;
    while i < es.len()
        invariant
            i <= es@.len(),
            stats_keys_distinct(es@),
            forall|k: int| 0 <= k < i ==> (#[trigger] es@[k]).account != a,
        decreases es@.len() - i,
    {
        if es[i].account == a {
            proof {
                lemma_stats_pos(es@, i as int);
            }
            return Some(i);
        }
        i = i + 1;
    }
    None
}

/// Statistics of `p` after one more finished game.
pub fn apply_game(s: PlayerStats, p: &Player, won: bool) -> (r: PlayerStats)
    ensures
        r == game_recorded(s, *p, won),
{
    PlayerStats {
        games_played: saturating_sum(s.games_played, 1),
        total_wins: if won {
            saturating_sum(s.total_wins, 1)
        } else {
            s.total_wins
        },
        total_score: saturating_sum(s.total_score, p.score),
        best_score: if s.best_score >= p.score {
            s.best_score
        } else {
            p.score
        },
        total_correct_answers: saturating_sum(s.total_correct_answers, p.correct_answers),
        longest_streak: if s.longest_streak >= p.best_streak {
            s.longest_streak
        } else {
            p.best_streak
        },
    }
}

/// Folds one finished game of `p` into the table; no other row changes.
pub fn record_game(es: &mut Vec<StatsEntry>, p: &Player, won: bool)
    requires
        stats_keys_distinct(old(es)@),
    ensures
        stats_keys_distinct(final(es)@),
        stats_of(final(es)@, p.account) == game_recorded(stats_of(old(es)@, p.account), *p, won),
        forall|a: Account| a != p.account ==> #[trigger] stats_of(final(es)@, a) == stats_of(old(es)@, a),
{
    let ghost before = es@;
    match find_stats(es, p.account) {
        Some(j) => {
            let s = apply_game(es[j].stats, p, won);
            es.set(j, StatsEntry { account: p.account, stats: s });
            proof {
                let now_es = es@;
                assert forall|a: int, b: int|
                    0 <= a < now_es.len() && 0 <= b < now_es.len() && a != b implies #[trigger] now_es[a].account
                    != #[trigger] now_es[b].account by {
                    if a != j && b != j {
                        assert(now_es[a] == before[a] && now_es[b] == before[b]);
                    } else if a == j {
                        assert(now_es[b] == before[b]);
                    } else {
                        assert(now_es[a] == before[a]);
                    }
                }
                lemma_stats_pos(now_es, j as int);
                assert forall|a: Account| a != p.account implies #[trigger] stats_of(now_es, a) == stats_of(
                    before,
                    a,
                ) by {
                    if has_stats(before, a) {
                        let k = stats_pos(before, a);
                        assert(k != j);
                        assert(now_es[k] == before[k]);
                        lemma_stats_pos(now_es, k);
                    } else if has_stats(now_es, a) {
                        let k = stats_pos(now_es, a);
                        assert(now_es[k] == before[k]);
                    }
                }
            }
        },
        None => {
            let s = apply_game(PlayerStats::zero(), p, won);
            es.push(StatsEntry { account: p.account, stats: s });
            proof {
                let now_es = es@;
                let n = before.len();
                assert forall|a: int, b: int|
                    0 <= a < now_es.len() && 0 <= b < now_es.len() && a != b implies #[trigger] now_es[a].account
                    != #[trigger] now_es[b].account by {
                    if a < n && b < n {
                        assert(now_es[a] == before[a] && now_es[b] == before[b]);
                    } else if a < n {
                        assert(now_es[a] == before[a]);
                    } else {
                        assert(now_es[b] == before[b]);
                    }
                }
                lemma_stats_pos(now_es, n as int);
                assert forall|a: Account| a != p.account implies #[trigger] stats_of(now_es, a) == stats_of(
                    before,
                    a,
                ) by {
                    if has_stats(before, a) {
                        let k = stats_pos(before, a);
                        assert(now_es[k] == before[k]);
                        lemma_stats_pos(now_es, k);
                    } else if has_stats(now_es, a) {
                        let k = stats_pos(now_es, a);
                        assert(now_es[k] == before[k]);
                    }
                }
            }
        },
    }
}

/// Folds a finished session into the table: each player in join order gets
/// one more game, and `winner` one more win when `has_winner` holds.
pub fn record_session(es: &mut Vec<StatsEntry>, players: &Vec<Player>, winner: Account, has_winner: bool)
    requires
        stats_keys_distinct(old(es)@),
        accounts_distinct(players@),
    ensures
        stats_keys_distinct(final(es)@),
        forall|k: int|
            0 <= k < players@.len() ==> stats_of(final(es)@, (#[trigger] players@[k]).account) == game_recorded(
                stats_of(old(es)@, players@[k].account),
                players@[k],
                has_winner && players@[k].account == winner,
            ),
        forall|a: Account| !has_player(players@, a) ==> #[trigger] stats_of(final(es)@, a) == stats_of(old(es)@, a),
{
    let ghost before = es@;
    let mut i: usize = 0;
    while i < players.len()
        invariant
            i <= players@.len(),
            stats_keys_distinct(es@),
            accounts_distinct(players@),
            forall|k: int|
                0 <= k < i ==> stats_of(es@, (#[trigger] players@[k]).account) == game_recorded(
                    stats_of(before, players@[k].account),
                    players@[k],
                    has_winner && players@[k].account == winner,
                ),
            forall|a: Account|
                (forall|k: int| 0 <= k < i ==> (#[trigger] players@[k]).account != a) ==> #[trigger] stats_of(
                    es@,
                    a,
                ) == stats_of(before, a),
        decreases players@.len() - i,
    {
        let ghost prev = es@;
        let p = players[i];
        let won = has_winner && p.account == winner;
        record_game(es, &p, won);
        proof {
            assert forall|k: int| 0 <= k < i implies (#[trigger] players@[k]).account != p.account by {
                assert(players@[i as int] == p);
            }
            assert forall|k: int|
                0 <= k < i + 1 implies stats_of(es@, (#[trigger] players@[k]).account) == game_recorded(
                stats_of(before, players@[k].account),
                players@[k],
                has_winner && players@[k].account == winner,
            ) by {
                if k < i {
                    assert(stats_of(es@, players@[k].account) == stats_of(prev, players@[k].account));
                }
            }
            assert forall|a: Account|
                (forall|k: int| 0 <= k < i + 1 ==> (#[trigger] players@[k]).account != a) implies #[trigger] stats_of(
                es@,
                a,
            ) == stats_of(before, a) by {
                assert(players@[i as int].account != a);
                assert(stats_of(es@, a) == stats_of(prev, a));
            }
        }
        i = i + 1;
    }
    proof {
        assert forall|a: Account| !has_player(players@, a) implies #[trigger] stats_of(es@, a) == stats_of(
            before,
            a,
        ) by {
            assert forall|k: int| 0 <= k < players@.len() implies (#[trigger] players@[k]).account != a by {
                if players@[k].account == a {
                    assert(has_player(players@, a));
                }
            }
        }
    }
}

} // verus!
