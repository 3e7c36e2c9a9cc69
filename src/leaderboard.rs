//! The in-session leaderboard: players by score, highest first, ties in join order.

use vstd::prelude::*;
use vstd::set_lib::{lemma_int_range, lemma_subset_equality, set_int_range};
use crate::types::Account;
use crate::session::Player;

verus! {

/// One row of a leaderboard.
#[derive(Clone, Copy, Debug, PartialEq, Eq, Structural)]
pub struct LeaderboardEntry {
    pub account: Account,
    pub score: u64,
}

/// Whether the player at position `i` ranks above the one at `j`: a higher
/// score first, and on equal scores the earlier joiner.
pub open spec fn ranks_before(players: Seq<Player>, i: int, j: int) -> bool {
    players[i].score > players[j].score || (players[i].score == players[j].score && i < j)
}

/// `order` lists every position of `players` exactly once, best ranked first.
pub open spec fn is_ranking(players: Seq<Player>, order: Seq<usize>) -> bool {
    &&& order.len() == players.len()
    &&& forall|k: int| 0 <= k < order.len() ==> #[trigger] order[k] < players.len()
    &&& forall|k: int, l: int|
        0 <= k < order.len() && 0 <= l < order.len() && k != l ==> #[trigger] order[k] != #[trigger] order[l]
    &&& forall|k: int, l: int|
        0 <= k < l < order.len() ==> ranks_before(players, #[trigger] order[k] as int, #[trigger] order[l] as int)
}

/// The leaderboard rows that `order` lists.
pub open spec fn rows_of(players: Seq<Player>, order: Seq<usize>) -> Seq<LeaderboardEntry> {
    order.map_values(
        |i: usize| LeaderboardEntry { account: players[i as int].account, score: players[i as int].score },
    )
}

/// Every position of `players` occurs in a ranking.
proof fn lemma_ranking_covers(players: Seq<Player>, order: Seq<usize>, i: int)
    requires
        is_ranking(players, order),
        0 <= i < players.len(),
    ensures
        exists|k: int| 0 <= k < order.len() && order[k] == i,
{
    let n = players.len() as int;
    let s = order.map_values(|x: usize| x as int);
    assert forall|a: int, b: int| 0 <= a < s.len() && 0 <= b < s.len() && a != b implies s[a] != s[b] by {
        assert(order[a] != order[b]);
    }
    assert(s.no_duplicates());
    s.unique_seq_to_set();
    lemma_int_range(0, n);
    assert forall|x: int| s.to_set().contains(x) implies set_int_range(0, n).contains(x) by {
        let k = choose|k: int| 0 <= k < s.len() && s[k] == x;
        assert(order[k] < players.len());
    }
    vstd::set_lib::lemma_len_subset(s.to_set(), set_int_range(0, n));
    lemma_subset_equality(s.to_set(), set_int_range(0, n));
    assert(set_int_range(0, n).contains(i));
    assert(s.to_set().contains(i));
    let k = choose|k: int| 0 <= k < s.len() && s[k] == i;
    assert(order[k] == i);
}

/// Two rankings agree on their first `m` places.
proof fn lemma_rankings_agree(players: Seq<Player>, o1: Seq<usize>, o2: Seq<usize>, m: int)
    requires
        is_ranking(players, o1),
        is_ranking(players, o2),
        0 <= m <= players.len(),
    ensures
        forall|k: int| 0 <= k < m ==> o1[k] == o2[k],
    decreases m,
{
    if m > 0 {
        lemma_rankings_agree(players, o1, o2, m - 1);
        let k = m - 1;
        if o1[k] != o2[k] {
            let a = o1[k];
            let b = o2[k];
            lemma_ranking_covers(players, o2, a as int);
            lemma_ranking_covers(players, o1, b as int);
            let ka = choose|j: int| 0 <= j < o2.len() && o2[j] == a;
            let kb = choose|j: int| 0 <= j < o1.len() && o1[j] == b;
            if ka < k {
                assert(o1[ka] == o2[ka]);
            }
            if kb < k {
                assert(o1[kb] == o2[kb]);
            }
            assert(ranks_before(players, o2[k] as int, o2[ka] as int));
            assert(ranks_before(players, o1[k] as int, o1[kb] as int));
        }
    }
}

/// A player list has exactly one ranking: the leaderboard order is fully
/// determined by the scores and the join order.
pub proof fn ranking_unique(players: Seq<Player>, o1: Seq<usize>, o2: Seq<usize>)
    requires
        is_ranking(players, o1),
        is_ranking(players, o2),
    ensures
        o1 == o2,
{
    lemma_rankings_agree(players, o1, o2, players.len() as int);
    assert(o1 =~= o2);
}

/// Positions of `players` sorted by score, highest first, ties in join order.
pub fn ranking(players: &Vec<Player>) -> (r: Vec<usize>)
    ensures
        is_ranking(players@, r@),
{
    let ghost ps = players@;
    let mut order: Vec<usize> = Vec::new();
    let mut i: usize = 0;
    while i < players.len()
        invariant
            i <= ps.len(),
            ps == players@,
            order@.len() == i,
            forall|k: int| 0 <= k < order@.len() ==> #[trigger] order@[k] < i,
            forall|k: int, l: int|
                0 <= k < order@.len() && 0 <= l < order@.len() && k != l ==> #[trigger] order@[k]
                    != #[trigger] order@[l],
            forall|k: int, l: int|
                0 <= k < l < order@.len() ==> ranks_before(ps, #[trigger] order@[k] as int, #[trigger] order@[l] as int),
        decreases ps.len() - i,
    {
        let score = players[i].score;
        let mut pos: usize = 0;
        while pos < order.len() && players[order[pos]].score >= score
            invariant
                pos <= order@.len(),
                i < ps.len(),
                ps == players@,
                score == ps[i as int].score,
                forall|k: int| 0 <= k < order@.len() ==> #[trigger] order@[k] < i,
                forall|k: int| 0 <= k < pos ==> ps[#[trigger] order@[k] as int].score >= score,
            decreases order@.len() - pos,
        {
            pos = pos + 1;
        }
        let ghost prev = order@;
        order.insert(pos, i);
        proof {
            let o = order@;
            assert(o == prev.insert(pos as int, i));
            assert forall|k: int| 0 <= k < o.len() implies #[trigger] o[k] < i + 1 by {
                if k < pos {
                    assert(o[k] == prev[k]);
                } else if k > pos {
                    assert(o[k] == prev[k - 1]);
                }
            }
            assert forall|k: int, l: int|
                0 <= k < o.len() && 0 <= l < o.len() && k != l implies #[trigger] o[k] != #[trigger] o[l] by {
                let pk = if k < pos { k } else { k - 1 };
                let pl = if l < pos { l } else { l - 1 };
                if k != pos && l != pos {
                    assert(o[k] == prev[pk] && o[l] == prev[pl]);
                } else if k == pos {
                    assert(o[l] == prev[pl]);
                } else {
                    assert(o[k] == prev[pk]);
                }
            }
            assert forall|k: int, l: int| 0 <= k < l < o.len() implies ranks_before(
                ps,
                #[trigger] o[k] as int,
                #[trigger] o[l] as int,
            ) by {
                if l < pos {
                    assert(o[k] == prev[k] && o[l] == prev[l]);
                } else if k > pos {
                    assert(o[k] == prev[k - 1] && o[l] == prev[l - 1]);
                } else if k < pos && l > pos {
                    assert(o[k] == prev[k] && o[l] == prev[l - 1]);
                    assert(ps[prev[k] as int].score >= score);
                    assert(ranks_before(ps, prev[pos as int] as int, prev[l - 1] as int) || l - 1 == pos);
                    assert(ps[prev[pos as int] as int].score < score);
                } else if k < pos && l == pos {
                    assert(o[k] == prev[k]);
                    assert(ps[prev[k] as int].score >= score);
                } else {
                    // k == pos < l
                    assert(o[l] == prev[l - 1]);
                    assert(ps[prev[pos as int] as int].score < score);
                    if l - 1 > pos {
                        assert(ranks_before(ps, prev[pos as int] as int, prev[l - 1] as int));
                    }
                }
            }
        }
        i = i + 1;
    }
    order
}

/// The leaderboard of `players`: every player once, highest score first,
/// ties in join order.
pub fn leaderboard_of(players: &Vec<Player>) -> (r: Vec<LeaderboardEntry>)
    ensures
        exists|order: Seq<usize>| is_ranking(players@, order) && r@ == rows_of(players@, order),
{
    let order = ranking(players);
    let mut rows: Vec<LeaderboardEntry> = Vec::new();
    let mut k: usize = 0;
    while k < order.len()
        invariant
            k <= order@.len(),
            is_ranking(players@, order@),
            rows@ == rows_of(players@, order@).take(k as int),
        decreases order@.len() - k,
    {
        let p = players[order[k]];
        rows.push(LeaderboardEntry { account: p.account, score: p.score });
        proof {
            assert(rows@ =~= rows_of(players@, order@).take(k + 1));
        }
        k = k + 1;
    }
    proof {
        assert(rows@ =~= rows_of(players@, order@));
    }
    rows
}

} // verus!
