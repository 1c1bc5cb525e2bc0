//! The keyed duel collection: unique, monotonically assigned identifiers,
//! and the accounting of stake locked in live duels.
use vstd::prelude::*;
use crate::storage::{Duel, DuelView};

verus! {

/// The stake a duel holds out of custodial accounting while it is live:
/// both sides' stakes when active, one side's while pending, nothing once
/// settled (the payout is already owed externally).
pub open spec fn locked_amount(d: DuelView) -> int {
    if d.winner is Some {
        0
    } else if d.player_b is Some {
        2 * d.stake
    } else {
        d.stake as int
    }
}

/// The total stake locked in the duels of `s` from index `i` on.
pub open spec fn locked_from(s: Seq<Duel>, i: int) -> int
    decreases s.len() - i,
{
    if i < 0 || i >= s.len() {
        0
    } else {
        locked_amount(s[i]@) + locked_from(s, i + 1)
    }
}

/// No two duels share an identifier.
pub open spec fn unique_ids(s: Seq<Duel>) -> bool {
    forall|i: int, j: int| 0 <= i < j < s.len() ==> (#[trigger] s[i]).id != (#[trigger] s[j]).id
}

/// Every stored duel is well-formed and its identifier is below `bound`.
pub open spec fn duels_wf(s: Seq<Duel>, bound: u128) -> bool {
    forall|i: int| 0 <= i < s.len() ==> (#[trigger] s[i])@.wf() && s[i].id < bound
}

pub proof fn lemma_locked_from_nonneg(s: Seq<Duel>, i: int)
    ensures
        locked_from(s, i) >= 0,
    decreases s.len() - i,
{
    if 0 <= i && i < s.len() {
        lemma_locked_from_nonneg(s, i + 1);
    }
}

/// One live duel's locked stake never exceeds the total locked.
pub proof fn lemma_locked_le_total(s: Seq<Duel>, k: int, i: int)
    requires
        0 <= i <= k < s.len(),
    ensures
        locked_amount(s[k]@) <= locked_from(s, i),
    decreases s.len() - i,
{
    lemma_locked_from_nonneg(s, i + 1);
    if i < k {
        lemma_locked_le_total(s, k, i + 1);
    }
}

pub proof fn lemma_locked_from_update(s: Seq<Duel>, k: int, d: Duel, i: int)
    requires
        0 <= i <= s.len(),
        0 <= k < s.len(),
    ensures
        locked_from(s.update(k, d), i) == locked_from(s, i) + if i <= k {
            locked_amount(d@) - locked_amount(s[k]@)
        } else {
            0
        },
    decreases s.len() - i,
{
    if 0 <= i && i < s.len() {
        lemma_locked_from_update(s, k, d, i + 1);
    }
}

pub proof fn lemma_locked_from_push(s: Seq<Duel>, d: Duel, i: int)
    requires
        0 <= i <= s.len(),
    ensures
        locked_from(s.push(d), i) == locked_from(s, i) + locked_amount(d@),
    decreases s.len() - i,
{
    if i < s.len() {
        lemma_locked_from_push(s, d, i + 1);
    } else {
        assert(locked_from(s.push(d), i + 1) == 0);
    }
}

pub proof fn lemma_locked_from_remove(s: Seq<Duel>, k: int, i: int)
    requires
        0 <= i <= s.len(),
        0 <= k < s.len(),
    ensures
        i <= k ==> locked_from(s.remove(k), i) == locked_from(s, i) - locked_amount(s[k]@),
        i > k ==> locked_from(s.remove(k), i) == locked_from(s, i + 1),
    decreases s.len() - i,
{
    if i < s.len() {
        lemma_locked_from_remove(s, k, i + 1);
        assert(locked_from(s, i) == locked_amount(s[i]@) + locked_from(s, i + 1));
    } else {
        assert(locked_from(s, i + 1) == 0);
    }
}

} // verus!
