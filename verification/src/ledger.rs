//! The per-account custodial stake ledger: unique account keys, non-negative
//! balances, and an exact accounting of the sum of all tracked balances.
use vstd::pervasive::VecAdditionalExecFns;
use vstd::prelude::*;

verus! {

/// Per-account custodial balances: amounts held for each account that are
/// not yet locked into any duel.
pub struct StakeLedger {
    entries: Vec<(String, u128)>,
}

/// The balance recorded for `account` in `s`, scanning from index `i`;
/// zero when no entry matches.
pub open spec fn bal_from(s: Seq<(String, u128)>, account: Seq<char>, i: int) -> u128
    decreases s.len() - i,
{
    if i < 0 || i >= s.len() {
        0
    } else if s[i].0@ == account {
        s[i].1
    } else {
        bal_from(s, account, i + 1)
    }
}

/// The sum of all balances in `s` from index `i` on.
pub open spec fn sum_from(s: Seq<(String, u128)>, i: int) -> int
    decreases s.len() - i,
{
    if i < 0 || i >= s.len() {
        0
    } else {
        s[i].1 + sum_from(s, i + 1)
    }
}

/// No two entries are for the same account.
pub open spec fn unique_keys(s: Seq<(String, u128)>) -> bool {
    forall|i: int, j: int|
        0 <= i < j < s.len() ==> (#[trigger] s[i]).0@ != (#[trigger] s[j]).0@
}

/// Whether some entry at index `i` or later is for `account`.
pub open spec fn has_key_from(s: Seq<(String, u128)>, account: Seq<char>, i: int) -> bool
    decreases s.len() - i,
{
    if i < 0 || i >= s.len() {
        false
    } else {
        s[i].0@ == account || has_key_from(s, account, i + 1)
    }
}

proof fn lemma_sum_from_nonneg(s: Seq<(String, u128)>, i: int)
    ensures
        sum_from(s, i) >= 0,
    decreases s.len() - i,
{
    if 0 <= i && i < s.len() {
        lemma_sum_from_nonneg(s, i + 1);
    }
}

proof fn lemma_bal_le_sum_from(s: Seq<(String, u128)>, account: Seq<char>, i: int)
    ensures
        bal_from(s, account, i) <= sum_from(s, i),
    decreases s.len() - i,
{
    lemma_sum_from_nonneg(s, i);
    if 0 <= i && i < s.len() {
        lemma_bal_le_sum_from(s, account, i + 1);
        lemma_sum_from_nonneg(s, i + 1);
    }
}

proof fn lemma_bal_from_update(
    s: Seq<(String, u128)>,
    k: int,
    p: (String, u128),
    account: Seq<char>,
    i: int,
)
    requires
        0 <= i <= s.len(),
        0 <= k < s.len(),
        p.0@ == s[k].0@,
        unique_keys(s),
    ensures
        bal_from(s.update(k, p), account, i) == if i <= k && account == s[k].0@ {
            p.1
        } else {
            bal_from(s, account, i)
        },
    decreases s.len() - i,
{
    if 0 <= i && i < s.len() {
        lemma_bal_from_update(s, k, p, account, i + 1);
    }
}

proof fn lemma_sum_from_update(s: Seq<(String, u128)>, k: int, p: (String, u128), i: int)
    requires
        0 <= i <= s.len(),
        0 <= k < s.len(),
    ensures
        sum_from(s.update(k, p), i) == sum_from(s, i) + if i <= k {
            p.1 - s[k].1
        } else {
            0
        },
    decreases s.len() - i,
{
    if 0 <= i && i < s.len() {
        lemma_sum_from_update(s, k, p, i + 1);
    }
}

proof fn lemma_bal_from_push(s: Seq<(String, u128)>, p: (String, u128), account: Seq<char>, i: int)
    requires
        0 <= i <= s.len(),
    ensures
        bal_from(s.push(p), account, i) == if has_key_from(s, account, i) {
            bal_from(s, account, i)
        } else if p.0@ == account {
            p.1
        } else {
            0
        },
    decreases s.len() - i,
{
    if i < s.len() {
        lemma_bal_from_push(s, p, account, i + 1);
    } else {
        assert(bal_from(s.push(p), account, i + 1) == 0);
    }
}

proof fn lemma_sum_from_push(s: Seq<(String, u128)>, p: (String, u128), i: int)
    requires
        0 <= i <= s.len(),
    ensures
        sum_from(s.push(p), i) == sum_from(s, i) + p.1,
    decreases s.len() - i,
{
    if i < s.len() {
        lemma_sum_from_push(s, p, i + 1);
    } else {
        assert(sum_from(s.push(p), i + 1) == 0);
    }
}

proof fn lemma_no_key_bal_zero(s: Seq<(String, u128)>, account: Seq<char>, i: int)
    requires
        !has_key_from(s, account, i),
    ensures
        bal_from(s, account, i) == 0,
    decreases s.len() - i,
{
    if 0 <= i && i < s.len() {
        lemma_no_key_bal_zero(s, account, i + 1);
    }
}

proof fn lemma_not_has_key(s: Seq<(String, u128)>, account: Seq<char>, i: int)
    requires
        forall|j: int| i <= j < s.len() ==> (#[trigger] s[j]).0@ != account,
    ensures
        !has_key_from(s, account, i),
    decreases s.len() - i,
{
    if 0 <= i && i < s.len() {
        lemma_not_has_key(s, account, i + 1);
    }
}

impl StakeLedger {
    /// Each account appears at most once.
    pub closed spec fn wf(self) -> bool {
        unique_keys(self.entries@)
    }

    /// The balance held in custody for `account`; zero for an account the
    /// ledger has never seen.
    pub closed spec fn spec_balance(self, account: Seq<char>) -> u128 {
        bal_from(self.entries@, account, 0)
    }

    /// The sum of all tracked balances.
    pub closed spec fn spec_sum(self) -> int {
        sum_from(self.entries@, 0)
    }

    /// Every balance is non-negative, and so is their sum: custody tracked
    /// per account can never go below zero.
    pub proof fn lemma_balance_never_negative(self, account: Seq<char>)
        ensures
            self.spec_balance(account) >= 0,
            self.spec_sum() >= 0,
    {
        lemma_sum_from_nonneg(self.entries@, 0);
    }

    /// One account's balance never exceeds the sum of all balances.
    pub proof fn lemma_balance_le_sum(self, account: Seq<char>)
        ensures
            self.spec_balance(account) <= self.spec_sum(),
    {
        lemma_bal_le_sum_from(self.entries@, account, 0);
    }

    /// An empty ledger: no accounts, no custody.
    pub fn new() -> (r: Self)
        ensures
            r.wf(),
            r.spec_sum() == 0,
            forall|a: Seq<char>| r.spec_balance(a) == 0,
    {
        StakeLedger { entries: Vec::new() }
    }

    /// The balance held for `account`.
    pub fn get(&self, account: &String) -> (r: u128)
        ensures
            r == self.spec_balance(account@),
    {
        let mut i: usize = 0;
        while i < self.entries.len()
            invariant
                0 <= i <= self.entries@.len(),
                bal_from(self.entries@, account@, 0) == bal_from(self.entries@, account@, i as int),
            decreases self.entries@.len() - i,
        {
            if self.entries[i].0 == *account {
                return self.entries[i].1;
            }
            i = i + 1;
        }
        0
    }

    /// Credit `amount` to `account`, creating the account if needed.
    /// Only this account's balance changes, and the tracked sum grows by
    /// exactly `amount`.
    pub fn credit(&mut self, account: &String, amount: u128)
        requires
            old(self).wf(),
            old(self).spec_balance(account@) + amount <= u128::MAX,
        ensures
            final(self).wf(),
            final(self).spec_balance(account@) == old(self).spec_balance(account@) + amount,
            forall|b: Seq<char>|
                b != account@ ==> final(self).spec_balance(b) == old(self).spec_balance(b),
            final(self).spec_sum() == old(self).spec_sum() + amount,
    {
        let ghost s0 = self.entries@;
        let mut i: usize = 0;
        while i < self.entries.len()
            invariant
                *self == *old(self),
                s0 == self.entries@,
                unique_keys(s0),
                old(self).spec_balance(account@) + amount <= u128::MAX,
                0 <= i <= s0.len(),
                bal_from(s0, account@, 0) == bal_from(s0, account@, i as int),
                forall|j: int| 0 <= j < i ==> (#[trigger] s0[j]).0@ != account@,
            decreases s0.len() - i,
        {
            if self.entries[i].0 == *account {
                let v = self.entries[i].1;
                let p = (account.clone(), v + amount);
                proof {
                    lemma_bal_from_update(s0, i as int, p, account@, 0);
                    lemma_sum_from_update(s0, i as int, p, 0);
                    assert forall|b: Seq<char>| b != account@ implies bal_from(
                        s0.update(i as int, p),
                        b,
                        0,
                    ) == bal_from(s0, b, 0) by {
                        lemma_bal_from_update(s0, i as int, p, b, 0);
                    }
                    assert forall|x: int, y: int|
                        0 <= x < y < s0.update(i as int, p).len() implies (#[trigger] s0.update(
                        i as int,
                        p,
                    )[x]).0@ != (#[trigger] s0.update(i as int, p)[y]).0@ by {
                        assert(s0[x].0@ != s0[y].0@);
                    }
                }
                self.entries.set(i, p);
                return ;
            }
            i = i + 1;
        }
        let p = (account.clone(), amount);
        proof {
            lemma_not_has_key(s0, account@, 0);
            lemma_no_key_bal_zero(s0, account@, 0);
            lemma_bal_from_push(s0, p, account@, 0);
            lemma_sum_from_push(s0, p, 0);
            assert forall|b: Seq<char>| b != account@ implies bal_from(s0.push(p), b, 0)
                == bal_from(s0, b, 0) by {
                lemma_bal_from_push(s0, p, b, 0);
                if !has_key_from(s0, b, 0) {
                    lemma_no_key_bal_zero(s0, b, 0);
                }
            }
            assert forall|x: int, y: int|
                0 <= x < y < s0.push(p).len() implies (#[trigger] s0.push(p)[x]).0@
                != (#[trigger] s0.push(p)[y]).0@ by {
                if y < s0.len() {
                    assert(s0[x].0@ != s0[y].0@);
                } else {
                    assert(s0[x].0@ != account@);
                }
            }
        }
        self.entries.push(p);
    }

    /// Debit `amount` from `account`. Succeeds exactly when the balance
    /// covers the amount; on failure nothing changes.
    pub fn debit(&mut self, account: &String, amount: u128) -> (ok: bool)
        requires
            old(self).wf(),
        ensures
            final(self).wf(),
            ok <==> old(self).spec_balance(account@) >= amount,
            ok ==> final(self).spec_balance(account@) == old(self).spec_balance(account@) - amount,
            ok ==> forall|b: Seq<char>|
                b != account@ ==> final(self).spec_balance(b) == old(self).spec_balance(b),
            ok ==> final(self).spec_sum() == old(self).spec_sum() - amount,
            !ok ==> *final(self) == *old(self),
    {
        let ghost s0 = self.entries@;
        let mut i: usize = 0;
        while i < self.entries.len()
            invariant
                *self == *old(self),
                s0 == self.entries@,
                unique_keys(s0),
                0 <= i <= s0.len(),
                bal_from(s0, account@, 0) == bal_from(s0, account@, i as int),
                forall|j: int| 0 <= j < i ==> (#[trigger] s0[j]).0@ != account@,
            decreases s0.len() - i,
        {
            if self.entries[i].0 == *account {
                let v = self.entries[i].1;
                if v < amount {
                    return false;
                }
                let p = (account.clone(), v - amount);
                proof {
                    lemma_bal_from_update(s0, i as int, p, account@, 0);
                    lemma_sum_from_update(s0, i as int, p, 0);
                    assert forall|b: Seq<char>| b != account@ implies bal_from(
                        s0.update(i as int, p),
                        b,
                        0,
                    ) == bal_from(s0, b, 0) by {
                        lemma_bal_from_update(s0, i as int, p, b, 0);
                    }
                    assert forall|x: int, y: int|
                        0 <= x < y < s0.update(i as int, p).len() implies (#[trigger] s0.update(
                        i as int,
                        p,
                    )[x]).0@ != (#[trigger] s0.update(i as int, p)[y]).0@ by {
                        assert(s0[x].0@ != s0[y].0@);
                    }
                }
                self.entries.set(i, p);
                return true;
            }
            i = i + 1;
        }
        amount == 0
    }
}

} // verus!
