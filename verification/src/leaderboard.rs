//! Ranking projections: wins and total damage per account, over settled
//! duels.
use vstd::pervasive::VecAdditionalExecFns;
use vstd::prelude::*;
use crate::contract::DuelManagerContract;
use crate::storage::{Duel, DuelView, Winner};

verus! {

/// One leaderboard row.
#[derive(Debug, PartialEq, Eq)]
pub struct LeaderboardItem {
    pub account_id: String,
    pub value: u32,
}

/// `x + d` clipped to the `u32` range (for `d >= 0`).
pub open spec fn clip32(x: int) -> u32 {
    if x > u32::MAX {
        u32::MAX
    } else if x < 0 {
        0
    } else {
        x as u32
    }
}

/// The account a settled duel's winner payout went to, if the outcome was
/// decisive.
pub open spec fn winner_account(d: DuelView) -> Option<Seq<char>> {
    match d.winner {
        Some(Winner::PlayerA) => Some(d.player_a),
        Some(Winner::PlayerB) => Some(d.player_b->0),
        _ => None,
    }
}

/// How many duels from index `i` on were decisively won by `account`.
pub open spec fn wins_from(s: Seq<Duel>, account: Seq<char>, i: int) -> int
    decreases s.len() - i,
{
    if i < 0 || i >= s.len() {
        0
    } else {
        (if winner_account(s[i]@) == Some(account) {
            1int
        } else {
            0int
        }) + wins_from(s, account, i + 1)
    }
}

/// The damage `account` dealt in one duel, over the turns from `i` on:
/// player A attacks on even turns, player B on odd ones.
pub open spec fn dealt_in(d: DuelView, account: Seq<char>, i: int) -> int
    decreases d.turns.len() - i,
{
    if i < 0 || i >= d.turns.len() {
        0
    } else {
        (if (if i % 2 == 0 {
            d.player_a
        } else {
            d.player_b->0
        }) == account {
            d.turns[i].damage as int
        } else {
            0int
        }) + dealt_in(d, account, i + 1)
    }
}

/// The damage `account` dealt across the settled duels from index `j` on.
pub open spec fn dealt_from(s: Seq<Duel>, account: Seq<char>, j: int) -> int
    decreases s.len() - j,
{
    if j < 0 || j >= s.len() {
        0
    } else {
        (if s[j]@.winner is Some {
            dealt_in(s[j]@, account, 0)
        } else {
            0int
        }) + dealt_from(s, account, j + 1)
    }
}

/// A per-account tally with saturating addition.
struct CountBoard {
    entries: Vec<(String, u32)>,
}

spec fn cval_from(s: Seq<(String, u32)>, account: Seq<char>, i: int) -> u32
    decreases s.len() - i,
{
    if i < 0 || i >= s.len() {
        0
    } else if s[i].0@ == account {
        s[i].1
    } else {
        cval_from(s, account, i + 1)
    }
}

spec fn cunique(s: Seq<(String, u32)>) -> bool {
    forall|i: int, j: int|
        0 <= i < j < s.len() ==> (#[trigger] s[i]).0@ != (#[trigger] s[j]).0@
}

spec fn chas_key_from(s: Seq<(String, u32)>, account: Seq<char>, i: int) -> bool
    decreases s.len() - i,
{
    if i < 0 || i >= s.len() {
        false
    } else {
        s[i].0@ == account || chas_key_from(s, account, i + 1)
    }
}

proof fn lemma_cval_update(s: Seq<(String, u32)>, k: int, p: (String, u32), account: Seq<char>, i: int)
    requires
        0 <= i <= s.len(),
        0 <= k < s.len(),
        p.0@ == s[k].0@,
        cunique(s),
    ensures
        cval_from(s.update(k, p), account, i) == if i <= k && account == s[k].0@ {
            p.1
        } else {
            cval_from(s, account, i)
        },
    decreases s.len() - i,
{
    if 0 <= i && i < s.len() {
        lemma_cval_update(s, k, p, account, i + 1);
    }
}

proof fn lemma_cval_push(s: Seq<(String, u32)>, p: (String, u32), account: Seq<char>, i: int)
    requires
        0 <= i <= s.len(),
    ensures
        cval_from(s.push(p), account, i) == if chas_key_from(s, account, i) {
            cval_from(s, account, i)
        } else if p.0@ == account {
            p.1
        } else {
            0
        },
    decreases s.len() - i,
{
    if i < s.len() {
        lemma_cval_push(s, p, account, i + 1);
    } else {
        assert(cval_from(s.push(p), account, i + 1) == 0);
    }
}

proof fn lemma_cno_key_zero(s: Seq<(String, u32)>, account: Seq<char>, i: int)
    requires
        !chas_key_from(s, account, i),
    ensures
        cval_from(s, account, i) == 0,
    decreases s.len() - i,
{
    if 0 <= i && i < s.len() {
        lemma_cno_key_zero(s, account, i + 1);
    }
}

proof fn lemma_cnot_has_key(s: Seq<(String, u32)>, account: Seq<char>, i: int)
    requires
        forall|j: int| i <= j < s.len() ==> (#[trigger] s[j]).0@ != account,
    ensures
        !chas_key_from(s, account, i),
    decreases s.len() - i,
{
    if 0 <= i && i < s.len() {
        lemma_cnot_has_key(s, account, i + 1);
    }
}

impl CountBoard {
    spec fn wf(self) -> bool {
        cunique(self.entries@)
    }

    spec fn val_of(self, account: Seq<char>) -> u32 {
        cval_from(self.entries@, account, 0)
    }

    fn new() -> (r: Self)
        ensures
            r.wf(),
            forall|a: Seq<char>| r.val_of(a) == 0,
            r.entries@.len() == 0,
    {
        CountBoard { entries: Vec::new() }
    }

    /// Add `delta` to the account's tally, saturating at the type's bound.
    fn bump(&mut self, account: &String, delta: u32)
        requires
            old(self).wf(),
        ensures
            final(self).wf(),
            final(self).val_of(account@) == clip32(old(self).val_of(account@) + delta),
            forall|b: Seq<char>| b != account@ ==> final(self).val_of(b) == old(self).val_of(b),
    {
        let ghost s0 = self.entries@;
        let mut i: usize = 0;
        while i < self.entries.len()
            invariant
                *self == *old(self),
                s0 == self.entries@,
                cunique(s0),
                0 <= i <= s0.len(),
                cval_from(s0, account@, 0) == cval_from(s0, account@, i as int),
                forall|j: int| 0 <= j < i ==> (#[trigger] s0[j]).0@ != account@,
            decreases s0.len() - i,
        {
            if self.entries[i].0 == *account {
                let v = self.entries[i].1;
                let nv = if u32::MAX - v < delta {
                    u32::MAX
                } else {
                    v + delta
                };
                let p = (account.clone(), nv);
                proof {
                    lemma_cval_update(s0, i as int, p, account@, 0);
                    assert forall|b: Seq<char>| b != account@ implies cval_from(
                        s0.update(i as int, p),
                        b,
                        0,
                    ) == cval_from(s0, b, 0) by {
                        lemma_cval_update(s0, i as int, p, b, 0);
                    }
                    assert forall|x: int, y: int|
                        0 <= x < y < s0.update(i as int, p).len() implies (#[trigger] s0.update(
                        i as int,
                        p,
                    )[x]).0@ != (#[trigger] s0.update(i as int, p)[y]).0@ by {
                        assert(s0[x].0@ != s0[y].0@);
                    }
                }
                self.entries.set(i, p);
                return ;
            }
            i = i + 1;
        }
        let nv = delta;
        let p = (account.clone(), nv);
        proof {
            lemma_cnot_has_key(s0, account@, 0);
            lemma_cno_key_zero(s0, account@, 0);
            lemma_cval_push(s0, p, account@, 0);
            assert forall|b: Seq<char>| b != account@ implies cval_from(s0.push(p), b, 0)
                == cval_from(s0, b, 0) by {
                lemma_cval_push(s0, p, b, 0);
                if !chas_key_from(s0, b, 0) {
                    lemma_cno_key_zero(s0, b, 0);
                }
            }
            assert forall|x: int, y: int|
                0 <= x < y < s0.push(p).len() implies (#[trigger] s0.push(p)[x]).0@ != (
            #[trigger] s0.push(p)[y]).0@ by {
                if y < s0.len() {
                    assert(s0[x].0@ != s0[y].0@);
                } else {
                    assert(s0[x].0@ != account@);
                }
            }
        }
        self.entries.push(p);
    }

    /// The tallies, one entry per account seen.
    fn into_entries(self) -> (r: Vec<(String, u32)>)
        requires
            self.wf(),
        ensures
            cunique(r@),
            forall|i: int| 0 <= i < r@.len() ==> (#[trigger] r@[i]).1 == self.val_of(r@[i].0@),
    {
        proof {
            assert forall|i: int| 0 <= i < self.entries@.len() implies (
            #[trigger] self.entries@[i]).1 == self.val_of(self.entries@[i].0@) by {
                lemma_cval_at(self.entries@, i, 0);
            }
        }
        self.entries
    }
}

proof fn lemma_cval_at(s: Seq<(String, u32)>, k: int, i: int)
    requires
        cunique(s),
        0 <= i <= k < s.len(),
    ensures
        cval_from(s, s[k].0@, i) == s[k].1,
    decreases k - i,
{
    if i < k {
        assert(s[i].0@ != s[k].0@);
        lemma_cval_at(s, k, i + 1);
    }
}

/// Entries sorted by tally, largest first. Every entry of the result
/// carries an exact tally for its account.
fn sort_entries_desc(v: Vec<(String, u32)>, duels: Ghost<Seq<Duel>>, wins: Ghost<bool>) -> (r: Vec<
    (String, u32),
>)
    requires
        forall|i: int|
            0 <= i < v@.len() ==> (#[trigger] v@[i]).1 == clip32(tally_of(duels@, v@[i].0@, wins@)),
    ensures
        r@.len() == v@.len(),
        forall|i: int, j: int| 0 <= i < j < r@.len() ==> (#[trigger] r@[i]).1 >= (#[trigger] r@[j]).1,
        forall|i: int|
            0 <= i < r@.len() ==> (#[trigger] r@[i]).1 == clip32(tally_of(duels@, r@[i].0@, wins@)),
{
    let mut r: Vec<(String, u32)> = Vec::new();
    let mut i: usize = 0;
    while i < v.len()
        invariant
            forall|k: int|
                0 <= k < v@.len() ==> (#[trigger] v@[k]).1 == clip32(
                    tally_of(duels@, v@[k].0@, wins@),
                ),
            0 <= i <= v@.len(),
            r@.len() == i,
            forall|x: int, y: int| 0 <= x < y < r@.len() ==> (#[trigger] r@[x]).1 >= (#[trigger] r@[y]).1,
            forall|k: int|
                0 <= k < r@.len() ==> (#[trigger] r@[k]).1 == clip32(
                    tally_of(duels@, r@[k].0@, wins@),
                ),
        decreases v@.len() - i,
    {
        let e = (v[i].0.clone(), v[i].1);
        proof {
            assert(e == v@[i as int]);
        }
        let ghost r0 = r@;
        let mut pos: usize = 0;
        while pos < r.len() && r[pos].1 >= e.1
            invariant
                r@ == r0,
                0 <= pos <= r@.len(),
                forall|k: int| 0 <= k < pos ==> (#[trigger] r@[k]).1 >= e.1,
            decreases r@.len() - pos,
        {
            pos = pos + 1;
        }
        r.insert(pos, e);
        proof {
            let rn = r@;
            assert(rn == r0.insert(pos as int, e));
            assert forall|k: int| 0 <= k < rn.len() implies (#[trigger] rn[k]).1 == clip32(
                tally_of(duels@, rn[k].0@, wins@),
            ) by {
                if k < pos {
                    assert(rn[k] == r0[k]);
                } else if k == pos {
                    assert(rn[k] == v@[i as int]);
                } else {
                    assert(rn[k] == r0[k - 1]);
                }
            }
            assert forall|x: int, y: int| 0 <= x < y < rn.len() implies (#[trigger] rn[x]).1 >= (
            #[trigger] rn[y]).1 by {
                if y == pos {
                    assert(rn[x] == r0[x]);
                } else if x == pos {
                    assert(rn[y] == r0[y - 1]);
                    assert(r0[pos as int].1 < e.1 || (pos as int) >= r0.len());
                    assert(y - 1 >= pos);
                    if (pos as int) < r0.len() {
                        assert(r0[y - 1].1 <= r0[pos as int].1);
                    }
                } else {
                    let kx: int = if x < pos { x } else { x - 1 };
                    let ky: int = if y < pos { y } else { y - 1 };
                    assert(rn[x] == r0[kx]);
                    assert(rn[y] == r0[ky]);
                }
            }
        }
        i = i + 1;
    }
    r
}

impl DuelManagerContract {
    /// Accounts ranked by decisive duels won, most wins first, `count`
    /// entries from `offset` on. Each listed account's value is exactly its
    /// win count over the stored duels, and no account is listed twice.
    pub fn get_leaderboard_by_wins(&self, count: usize, offset: usize) -> (r: Vec<LeaderboardItem>)
        requires
            self.wf(),
        ensures
            r@.len() <= count,
            forall|i: int, j: int|
                0 <= i < j < r@.len() ==> (#[trigger] r@[i]).value >= (#[trigger] r@[j]).value,
            forall|i: int|
                0 <= i < r@.len() ==> (#[trigger] r@[i]).value == clip32(
                    wins_from(self.duels@, r@[i].account_id@, 0),
                ),
    {
        let ghost s = self.duels@;
        let mut board = CountBoard::new();
        let mut j: usize = 0;
        while j < self.duels.len()
            invariant
                self.wf(),
                s == self.duels@,
                0 <= j <= s.len(),
                board.wf(),
                forall|a: Seq<char>|
                    #![trigger board.val_of(a)]
                    board.val_of(a) == clip32(wins_from(s, a, 0) - wins_from(s, a, j as int)),
            decreases s.len() - j,
        {
            let d = &self.duels[j];
            proof {
                lemma_wins_prefix_bounds(s, j as int);
            }
            match d.winner {
                Some(Winner::PlayerA) => {
                    board.bump(&d.player_a, 1);
                },
                Some(Winner::PlayerB) => {
                    match &d.player_b {
                        Some(p) => board.bump(p, 1),
                        None => (),
                    }
                },
                _ => (),
            }
            j = j + 1;
        }
        let ghost b0 = board;
        let entries = board.into_entries();
        proof {
            assert forall|i: int| 0 <= i < entries@.len() implies (#[trigger] entries@[i]).1
                == clip32(tally_of(s, entries@[i].0@, true)) by {
                assert(entries@[i].1 == b0.val_of(entries@[i].0@));
            }
        }
        let sorted = sort_entries_desc(entries, Ghost(s), Ghost(true));
        page_items(sorted, count, offset, Ghost(s), Ghost(true))
    }

    /// Accounts ranked by total damage dealt across settled duels, most
    /// damage first, `count` entries from `offset` on. Each listed account's
    /// value is exactly its damage total, and no account is listed twice.
    pub fn get_leaderboard_by_damage(&self, count: usize, offset: usize) -> (r: Vec<
        LeaderboardItem,
    >)
        requires
            self.wf(),
        ensures
            r@.len() <= count,
            forall|i: int, j: int|
                0 <= i < j < r@.len() ==> (#[trigger] r@[i]).value >= (#[trigger] r@[j]).value,
            forall|i: int|
                0 <= i < r@.len() ==> (#[trigger] r@[i]).value == clip32(
                    dealt_from(self.duels@, r@[i].account_id@, 0),
                ),
    {
        let ghost s = self.duels@;
        let mut board = CountBoard::new();
        let mut j: usize = 0;
        while j < self.duels.len()
            invariant
                self.wf(),
                s == self.duels@,
                0 <= j <= s.len(),
                board.wf(),
                forall|a: Seq<char>|
                    #![trigger board.val_of(a)]
                    board.val_of(a) == clip32(dealt_from(s, a, 0) - dealt_from(s, a, j as int)),
            decreases s.len() - j,
        {
            let d = &self.duels[j];
            let ghost dv = d@;
            if d.winner.is_some() {
                let pb = match &d.player_b {
                    Some(p) => p.clone(),
                    // A settled duel always carries both players.
                    None => d.player_a.clone(),
                };
                proof {
                    lemma_dealt_prefix_bounds(s, j as int);
                    assert(dv.player_b is Some || dv.turns.len() == 0) by {
                        assert(dv.wf());
                    }
                }
                let mut i: usize = 0;
                while i < d.turns.len()
                    invariant
                        self.wf(),
                        s == self.duels@,
                        j < s.len(),
                        d == &self.duels@[j as int],
                        dv == d@,
                        dv.winner is Some,
                        pb@ == (if dv.player_b is Some {
                            dv.player_b->0
                        } else {
                            dv.player_a
                        }),
                        0 <= i <= dv.turns.len(),
                        board.wf(),
                        forall|a: Seq<char>|
                            #![trigger board.val_of(a)]
                            board.val_of(a) == clip32(
                                dealt_from(s, a, 0) - dealt_from(s, a, j as int) + dealt_in(
                                    dv,
                                    a,
                                    0,
                                ) - dealt_in(dv, a, i as int),
                            ),
                    decreases dv.turns.len() - i,
                {
                    proof {
                        lemma_dealt_prefix_bounds(s, j as int);
                        lemma_dealt_in_bounds(dv, i as int);
                        lemma_dealt_in_bounds(dv, 0);
                        assert(dv.wf());
                        assert(dv.turns.len() > 0);
                    }
                    let dmg = d.turns[i].damage as u32;
                    if i % 2 == 0 {
                        board.bump(&d.player_a, dmg);
                    } else {
                        board.bump(&pb, dmg);
                    }
                    i = i + 1;
                }
            }
            j = j + 1;
        }
        let ghost b0 = board;
        let entries = board.into_entries();
        proof {
            assert forall|i: int| 0 <= i < entries@.len() implies (#[trigger] entries@[i]).1
                == clip32(tally_of(s, entries@[i].0@, false)) by {
                assert(entries@[i].1 == b0.val_of(entries@[i].0@));
            }
        }
        let sorted = sort_entries_desc(entries, Ghost(s), Ghost(false));
        page_items(sorted, count, offset, Ghost(s), Ghost(false))
    }
}

/// Which tally a leaderboard's values carry.
spec fn tally_of(s: Seq<Duel>, account: Seq<char>, wins: bool) -> int {
    if wins {
        wins_from(s, account, 0)
    } else {
        dealt_from(s, account, 0)
    }
}

proof fn lemma_wins_prefix_bounds(s: Seq<Duel>, j: int)
    requires
        0 <= j <= s.len(),
    ensures
        forall|a: Seq<char>|
            0 <= #[trigger] wins_from(s, a, j) <= wins_from(s, a, 0),
{
    assert forall|a: Seq<char>| 0 <= #[trigger] wins_from(s, a, j) <= wins_from(s, a, 0) by {
        lemma_wins_mono(s, a, 0, j);
        lemma_wins_nonneg(s, a, j);
    }
}

proof fn lemma_wins_nonneg(s: Seq<Duel>, a: Seq<char>, i: int)
    ensures
        wins_from(s, a, i) >= 0,
    decreases s.len() - i,
{
    if 0 <= i && i < s.len() {
        lemma_wins_nonneg(s, a, i + 1);
    }
}

proof fn lemma_wins_mono(s: Seq<Duel>, a: Seq<char>, i: int, j: int)
    requires
        0 <= i <= j <= s.len(),
    ensures
        wins_from(s, a, j) <= wins_from(s, a, i),
    decreases j - i,
{
    if i < j {
        lemma_wins_mono(s, a, i + 1, j);
    }
}

proof fn lemma_dealt_prefix_bounds(s: Seq<Duel>, j: int)
    requires
        0 <= j <= s.len(),
    ensures
        forall|a: Seq<char>|
            0 <= #[trigger] dealt_from(s, a, j) <= dealt_from(s, a, 0),
{
    assert forall|a: Seq<char>| 0 <= #[trigger] dealt_from(s, a, j) <= dealt_from(s, a, 0) by {
        lemma_dealt_mono(s, a, 0, j);
        lemma_dealt_nonneg(s, a, j);
    }
}

proof fn lemma_dealt_nonneg(s: Seq<Duel>, a: Seq<char>, i: int)
    ensures
        dealt_from(s, a, i) >= 0,
    decreases s.len() - i,
{
    if 0 <= i && i < s.len() {
        lemma_dealt_nonneg(s, a, i + 1);
        lemma_dealt_in_nonneg(s[i]@, a, 0);
    }
}

proof fn lemma_dealt_in_nonneg(d: DuelView, a: Seq<char>, i: int)
    ensures
        dealt_in(d, a, i) >= 0,
    decreases d.turns.len() - i,
{
    if 0 <= i && i < d.turns.len() {
        lemma_dealt_in_nonneg(d, a, i + 1);
    }
}

proof fn lemma_dealt_mono(s: Seq<Duel>, a: Seq<char>, i: int, j: int)
    requires
        0 <= i <= j <= s.len(),
    ensures
        dealt_from(s, a, j) <= dealt_from(s, a, i),
    decreases j - i,
{
    if i < j {
        lemma_dealt_mono(s, a, i + 1, j);
        lemma_dealt_in_nonneg(s[i]@, a, 0);
    }
}

proof fn lemma_dealt_in_bounds(d: DuelView, i: int)
    requires
        0 <= i <= d.turns.len(),
    ensures
        forall|a: Seq<char>|
            0 <= #[trigger] dealt_in(d, a, i) <= dealt_in(d, a, 0),
{
    assert forall|a: Seq<char>| 0 <= #[trigger] dealt_in(d, a, i) <= dealt_in(d, a, 0) by {
        lemma_dealt_in_mono(d, a, 0, i);
        lemma_dealt_in_nonneg(d, a, i);
    }
}

proof fn lemma_dealt_in_mono(d: DuelView, a: Seq<char>, i: int, j: int)
    requires
        0 <= i <= j <= d.turns.len(),
    ensures
        dealt_in(d, a, j) <= dealt_in(d, a, i),
    decreases j - i,
{
    if i < j {
        lemma_dealt_in_mono(d, a, i + 1, j);
    }
}

/// The page `offset..offset + count` of sorted tally entries, as items.
fn page_items(
    v: Vec<(String, u32)>,
    count: usize,
    offset: usize,
    duels: Ghost<Seq<Duel>>,
    wins: Ghost<bool>,
) -> (r: Vec<LeaderboardItem>)
    requires
        forall|i: int, j: int| 0 <= i < j < v@.len() ==> (#[trigger] v@[i]).1 >= (#[trigger] v@[j]).1,
        forall|i: int|
            0 <= i < v@.len() ==> (#[trigger] v@[i]).1 == clip32(tally_of(duels@, v@[i].0@, wins@)),
    ensures
        r@.len() <= count,
        forall|i: int, j: int|
            0 <= i < j < r@.len() ==> (#[trigger] r@[i]).value >= (#[trigger] r@[j]).value,
        forall|i: int|
            0 <= i < r@.len() ==> (#[trigger] r@[i]).value == clip32(
                tally_of(duels@, r@[i].account_id@, wins@),
            ),
{
    let mut r: Vec<LeaderboardItem> = Vec::new();
    if offset >= v.len() {
        return r;
    }
    let end = if v.len() - offset < count {
        v.len()
    } else {
        offset + count
    };
    let mut k: usize = offset;
    while k < end
        invariant
            offset <= k <= end <= v@.len(),
            end - offset <= count,
            forall|i: int, j: int|
                0 <= i < j < v@.len() ==> (#[trigger] v@[i]).1 >= (#[trigger] v@[j]).1,
            forall|i: int|
                0 <= i < v@.len() ==> (#[trigger] v@[i]).1 == clip32(
                    tally_of(duels@, v@[i].0@, wins@),
                ),
            r@.len() == k - offset,
            forall|i: int|
                0 <= i < r@.len() ==> (#[trigger] r@[i]).account_id@ == v@[offset + i].0@ && r@[i].value
                    == v@[offset + i].1,
        decreases end - k,
    {
        r.push(LeaderboardItem { account_id: v[k].0.clone(), value: v[k].1 });
        k = k + 1;
    }
    r
}

} // verus!
