//! The duel manager: the custodial ledger, the duel registry, and the
//! lifecycle state machine from creation through settlement or cancellation.
//!
//! Every operation runs to completion against the owned state; the external
//! ledger service is reached only through [`ExternalAction`] values that the
//! embedding host performs after the local state is committed.
use vstd::prelude::*;
use crate::figures::HistoricalFigure;
use crate::ledger::StakeLedger;
use crate::registry::{duels_wf, locked_amount, locked_from, unique_ids};
use crate::registry::{
    lemma_locked_from_nonneg, lemma_locked_from_push, lemma_locked_from_remove,
    lemma_locked_from_update, lemma_locked_le_total,
};
use crate::settlement::ExternalAction;
use crate::storage::{Duel, DuelView, RoastStyle, Winner};
use crate::MIN_STAKE;

verus! {

/// Nanoseconds a pending duel must age before its creator can cancel it.
pub const PENDING_CANCEL_WAIT: u128 = 24 * 60 * 60 * 1_000_000_000;

/// Nanoseconds of inactivity before the waiting side can cancel an active
/// duel.
pub const ACTIVE_CANCEL_WAIT: u128 = 48 * 60 * 60 * 1_000_000_000;

/// Why a request was rejected. Every rejection is synchronous and leaves the
/// state unchanged.
#[derive(Copy, Clone, Debug, PartialEq, Eq, Structural)]
pub enum DuelError {
    /// The account's custodial balance does not cover the amount.
    InsufficientBalance,
    /// The stake offered at creation is below the minimum.
    BelowMinimumStake,
    /// No duel with the given identifier exists.
    NotFound,
    /// The duel already has a second player.
    AlreadyAccepted,
    /// A player tried to accept their own duel.
    SelfParticipation,
    /// The acceptor chose the same persona as the creator.
    DuplicatePersona,
    /// The duel is not open for turns (not yet accepted, or already settled).
    DuelComplete,
    /// The caller is not the player whose turn it is.
    NotYourTurn,
    /// Only the creator may cancel a pending duel.
    NotParticipant,
    /// Only the side waiting on the other's move may cancel an active duel.
    NotOpponent,
    /// The cancellation waiting period has not elapsed.
    TooEarly,
    /// Only the administrator may attach annotations.
    NotAdmin,
    /// The turn already carries an annotation.
    AlreadyAnnotated,
    /// The turn does not exist yet.
    TurnNotTaken,
}

/// A decoded deposit message: the intent a depositor attached to an
/// incoming transfer.
#[derive(Copy, Clone, Debug, PartialEq, Eq, Structural)]
pub enum Msg {
    /// Create a duel with this persona, staking the deposited amount.
    CreateDuel { figure: HistoricalFigure },
    /// Accept the given duel with this persona, staking the deposit.
    AcceptDuel { duel_id: u128, figure: HistoricalFigure },
}

/// One persona together with its attributes, as listed by the catalog.
#[derive(Copy, Clone, Debug, PartialEq, Eq, Structural)]
pub struct FigureData {
    pub name: HistoricalFigure,
    pub wit: u8,
    pub brutality: u8,
    pub strategy: u8,
    pub mockery: u8,
}

/// What taking a turn produced: the damage dealt, and the settlement calls
/// implied when this was the tenth turn (empty otherwise).
#[derive(Debug, PartialEq, Eq)]
pub struct TurnOutcome {
    pub damage: u8,
    pub settlement: Vec<ExternalAction>,
}

/// The style of the most recent turn, if any.
pub open spec fn last_style(turns: Seq<crate::storage::Turn>) -> Option<RoastStyle> {
    if turns.len() == 0 {
        None
    } else {
        Some(turns.last().style)
    }
}

/// The persona attacking on the next turn: turns alternate by index parity,
/// player A on even indices.
pub open spec fn attacker_figure(d: DuelView) -> HistoricalFigure {
    if d.turns.len() % 2 == 0 {
        d.figure_a
    } else {
        d.figure_b->0
    }
}

/// The account whose turn it is.
pub open spec fn current_player(d: DuelView) -> Seq<char> {
    if d.turns.len() % 2 == 0 {
        d.player_a
    } else {
        d.player_b->0
    }
}

/// The turn record appended when the current player attacks with `style`.
pub open spec fn next_turn(d: DuelView, style: RoastStyle, now: u64, random_byte: u8)
    -> crate::storage::Turn {
    crate::storage::Turn {
        creation_time: now,
        damage: crate::combat::spec_resolve(
            crate::figures::spec_stats(attacker_figure(d)),
            style,
            last_style(d.turns),
            random_byte,
        ) as u8,
        style,
        roast_cid: None,
    }
}

/// The duel after the current player attacks: the turn is appended, and the
/// tenth turn always sets the winner by cumulative damage.
pub open spec fn apply_turn(d: DuelView, style: RoastStyle, now: u64, random_byte: u8)
    -> DuelView {
    let turns = d.turns.push(next_turn(d, style, now, random_byte));
    DuelView {
        turns,
        winner: if turns.len() == 10 {
            Some(crate::settlement::spec_winner(turns))
        } else {
            None
        },
        ..d
    }
}

/// When an active duel last moved: the most recent turn, or acceptance when
/// no turn has been taken yet.
pub open spec fn last_activity(d: DuelView) -> int {
    if d.turns.len() > 0 {
        d.turns.last().creation_time as int
    } else {
        d.start_time->0 as int
    }
}

/// The account allowed to cancel an active duel: the side waiting on the
/// other's move.
pub open spec fn waiting_player(d: DuelView) -> Seq<char> {
    if d.turns.len() % 2 == 0 {
        d.player_b->0
    } else {
        d.player_a
    }
}

/// The long-lived state: administrator identity, the address of the
/// external ledger service, the duel registry, the stake ledger, and the
/// believed total custody.
pub struct DuelManagerContract {
    pub admin_id: String,
    pub ft_contract: String,
    pub duels: Vec<Duel>,
    pub next_duel_id: u128,
    pub stakes: StakeLedger,
    pub total_stake: u128,
}

impl DuelManagerContract {
    /// The state invariant: account keys and duel identifiers are unique,
    /// identifiers stay below the next one to assign, every stored duel is
    /// well-formed, and believed total custody covers all tracked balances
    /// plus all stake locked in live duels.
    pub open spec fn wf(self) -> bool {
        &&& self.stakes.wf()
        &&& unique_ids(self.duels@)
        &&& duels_wf(self.duels@, self.next_duel_id)
        &&& self.stakes.spec_sum() + locked_from(self.duels@, 0) <= self.total_stake
    }

    /// Everything except the two identity fields is unchanged.
    pub open spec fn same_config(self, other: DuelManagerContract) -> bool {
        &&& self.admin_id@ == other.admin_id@
        &&& self.ft_contract@ == other.ft_contract@
    }

    /// A fresh instance holding no duels and no custody.
    pub fn new(admin_id: String, ft_contract: String) -> (r: Self)
        ensures
            r.wf(),
            r.admin_id@ == admin_id@,
            r.ft_contract@ == ft_contract@,
            r.duels@.len() == 0,
            r.next_duel_id == 0,
            r.total_stake == 0,
            r.stakes.spec_sum() == 0,
            forall|a: Seq<char>| r.stakes.spec_balance(a) == 0,
    {
        DuelManagerContract {
            admin_id,
            ft_contract,
            duels: Vec::new(),
            next_duel_id: 0,
            stakes: StakeLedger::new(),
            total_stake: 0,
        }
    }

    /// The custodial balance held for `account_id` and not locked into any
    /// duel.
    pub fn get_balance(&self, account_id: String) -> (r: u128)
        ensures
            r == self.stakes.spec_balance(account_id@),
    {
        self.stakes.get(&account_id)
    }

    /// Debit `amount` from the caller's balance and hand it back through an
    /// external transfer. Fails exactly when the balance does not cover the
    /// amount, changing nothing.
    pub fn withdraw(&mut self, sender: String, amount: u128) -> (r: Result<
        ExternalAction,
        DuelError,
    >)
        requires
            old(self).wf(),
        ensures
            final(self).wf(),
            r is Ok <==> old(self).stakes.spec_balance(sender@) >= amount,
            r is Err ==> r == Err::<ExternalAction, DuelError>(DuelError::InsufficientBalance)
                && *final(self) == *old(self),
            r matches Ok(act) ==> {
                &&& act@ == (crate::settlement::ActionView::Transfer {
                    recipient: sender@,
                    amount,
                })
                &&& final(self).stakes.spec_balance(sender@) == old(self).stakes.spec_balance(
                    sender@,
                ) - amount
                &&& forall|b: Seq<char>|
                    b != sender@ ==> final(self).stakes.spec_balance(b) == old(
                        self,
                    ).stakes.spec_balance(b)
                &&& final(self).stakes.spec_sum() == old(self).stakes.spec_sum() - amount
                &&& final(self).total_stake == old(self).total_stake - amount
                &&& final(self).duels@ == old(self).duels@
                &&& final(self).next_duel_id == old(self).next_duel_id
                &&& final(self).same_config(*old(self))
            },
    {
        proof {
            old(self).stakes.lemma_balance_le_sum(sender@);
            lemma_locked_from_nonneg(old(self).duels@, 0);
        }
        let ok = self.stakes.debit(&sender, amount);
        if !ok {
            return Err(DuelError::InsufficientBalance);
        }
        self.total_stake = self.total_stake - amount;
        Ok(ExternalAction::Transfer { recipient: sender, amount })
    }

    /// The reconciliation continuation: given the externally held balance
    /// (when the query delivered one), burn exactly the surplus over
    /// believed total custody, and nothing otherwise.
    pub fn on_burn_excess(&self, balance: Option<u128>) -> (r: Option<ExternalAction>)
        ensures
            r is Some <==> crate::settlement::spec_reconcile_burn(
                self.total_stake as int,
                balance,
            ) is Some,
            r matches Some(act) ==> act@ == (crate::settlement::ActionView::Burn {
                amount: crate::settlement::spec_reconcile_burn(self.total_stake as int, balance)->0,
            }),
    {
        match balance {
            Some(b) => {
                if b > self.total_stake {
                    Some(ExternalAction::Burn { amount: b - self.total_stake })
                } else {
                    None
                }
            },
            None => None,
        }
    }

    /// Lock `stake` from the creator's balance and insert a new pending
    /// duel under a fresh identifier. Fails with `BelowMinimumStake` or
    /// `InsufficientBalance` exactly as those conditions hold, changing
    /// nothing.
    pub fn create_duel(
        &mut self,
        sender: String,
        figure: HistoricalFigure,
        stake: u128,
        now: u64,
    ) -> (r: Result<u128, DuelError>)
        requires
            old(self).wf(),
            old(self).next_duel_id < u128::MAX,
        ensures
            final(self).wf(),
            r is Ok <==> stake >= MIN_STAKE && old(self).stakes.spec_balance(sender@) >= stake,
            stake < MIN_STAKE ==> r == Err::<u128, DuelError>(DuelError::BelowMinimumStake),
            stake >= MIN_STAKE && old(self).stakes.spec_balance(sender@) < stake ==> r == Err::<
                u128,
                DuelError,
            >(DuelError::InsufficientBalance),
            r is Err ==> *final(self) == *old(self),
            r matches Ok(id) ==> {
                &&& id == old(self).next_duel_id
                &&& final(self).next_duel_id == old(self).next_duel_id + 1
                &&& final(self).duels@.len() == old(self).duels@.len() + 1
                &&& forall|j: int|
                    0 <= j < old(self).duels@.len() ==> final(self).duels@[j] == old(
                        self,
                    ).duels@[j]
                &&& final(self).duels@.last()@ == (DuelView {
                    id: old(self).next_duel_id,
                    creation_time: now,
                    start_time: None,
                    stake,
                    player_a: sender@,
                    figure_a: figure,
                    player_b: None,
                    figure_b: None,
                    turns: Seq::empty(),
                    winner: None,
                })
                &&& final(self).stakes.spec_balance(sender@) == old(self).stakes.spec_balance(
                    sender@,
                ) - stake
                &&& forall|b: Seq<char>|
                    b != sender@ ==> final(self).stakes.spec_balance(b) == old(
                        self,
                    ).stakes.spec_balance(b)
                &&& final(self).stakes.spec_sum() == old(self).stakes.spec_sum() - stake
                &&& final(self).total_stake == old(self).total_stake
                &&& final(self).same_config(*old(self))
            },
    {
        if stake < MIN_STAKE {
            return Err(DuelError::BelowMinimumStake);
        }
        let ok = self.stakes.debit(&sender, stake);
        if !ok {
            return Err(DuelError::InsufficientBalance);
        }
        let id = self.next_duel_id;
        let duel = Duel {
            id,
            creation_time: now,
            start_time: None,
            stake,
            player_a: sender,
            figure_a: figure,
            player_b: None,
            figure_b: None,
            turns: Vec::new(),
            winner: None,
        };
        proof {
            lemma_locked_from_push(self.duels@, duel, 0);
            assert(duel@.wf());
        }
        self.duels.push(duel);
        self.next_duel_id = id + 1;
        proof {
            assert forall|i: int, j: int| 0 <= i < j < self.duels@.len() implies (
            #[trigger] self.duels@[i]).id != (#[trigger] self.duels@[j]).id by {
                if j == self.duels@.len() - 1 {
                    assert(old(self).duels@[i].id < id);
                }
            }
            assert(duels_wf(self.duels@, self.next_duel_id));
        }
        Ok(id)
    }

    /// The index of the duel with this identifier, when one exists.
    pub(crate) fn find_duel(&self, duel_id: u128) -> (r: Option<usize>)
        ensures
            r matches Some(i) ==> i < self.duels@.len() && self.duels@[i as int].id == duel_id,
            r is None ==> forall|j: int|
                0 <= j < self.duels@.len() ==> (#[trigger] self.duels@[j]).id != duel_id,
    {
        let mut i: usize = 0;
        while i < self.duels.len()
            invariant
                0 <= i <= self.duels@.len(),
                forall|j: int| 0 <= j < i ==> (#[trigger] self.duels@[j]).id != duel_id,
            decreases self.duels@.len() - i,
        {
            if self.duels[i].id == duel_id {
                return Some(i);
            }
            i = i + 1;
        }
        None
    }

    /// Join a pending duel: lock the acceptor's stake and make the duel
    /// active. Fails, changing nothing, when the duel is missing or already
    /// accepted, when the acceptor is the creator, picked the creator's
    /// persona, or cannot cover the stake.
    pub fn accept_duel(
        &mut self,
        sender: String,
        duel_id: u128,
        figure: HistoricalFigure,
        now: u64,
    ) -> (r: Result<(), DuelError>)
        requires
            old(self).wf(),
        ensures
            final(self).wf(),
            r is Err ==> *final(self) == *old(self),
            r == Err::<(), DuelError>(DuelError::NotFound) <==> (forall|j: int|
                0 <= j < old(self).duels@.len() ==> (#[trigger] old(self).duels@[j]).id
                    != duel_id),
            forall|j: int|
                0 <= j < old(self).duels@.len() && (#[trigger] old(self).duels@[j]).id == duel_id
                    ==> {
                    let d = old(self).duels@[j]@;
                    &&& (r == Err::<(), DuelError>(DuelError::AlreadyAccepted) <==> d.player_b
                        is Some)
                    &&& (d.player_b is None ==> (r == Err::<(), DuelError>(
                        DuelError::SelfParticipation,
                    ) <==> sender@ == d.player_a))
                    &&& (d.player_b is None && sender@ != d.player_a ==> (r == Err::<
                        (),
                        DuelError,
                    >(DuelError::DuplicatePersona) <==> figure == d.figure_a))
                    &&& (d.player_b is None && sender@ != d.player_a && figure != d.figure_a ==> (
                    r == Err::<(), DuelError>(DuelError::InsufficientBalance) <==> old(
                        self,
                    ).stakes.spec_balance(sender@) < d.stake))
                    &&& (r is Ok <==> d.player_b is None && sender@ != d.player_a && figure
                        != d.figure_a && old(self).stakes.spec_balance(sender@) >= d.stake)
                    &&& (r is Ok ==> {
                        &&& final(self).duels@.len() == old(self).duels@.len()
                        &&& (forall|k: int|
                            0 <= k < old(self).duels@.len() && k != j ==> final(self).duels@[k]
                                == old(self).duels@[k])
                        &&& final(self).duels@[j]@ == (DuelView {
                            start_time: Some(now),
                            player_b: Some(sender@),
                            figure_b: Some(figure),
                            ..d
                        })
                        &&& final(self).stakes.spec_balance(sender@) == old(
                            self,
                        ).stakes.spec_balance(sender@) - d.stake
                        &&& (forall|b: Seq<char>|
                            b != sender@ ==> final(self).stakes.spec_balance(b) == old(
                                self,
                            ).stakes.spec_balance(b))
                        &&& final(self).stakes.spec_sum() == old(self).stakes.spec_sum() - d.stake
                        &&& final(self).total_stake == old(self).total_stake
                        &&& final(self).next_duel_id == old(self).next_duel_id
                        &&& final(self).same_config(*old(self))
                    })
                },
    {
        let idx = match self.find_duel(duel_id) {
            None => {
                return Err(DuelError::NotFound);
            },
            Some(i) => i,
        };
        if self.duels[idx].player_b.is_some() {
            return Err(DuelError::AlreadyAccepted);
        }
        if sender == self.duels[idx].player_a {
            return Err(DuelError::SelfParticipation);
        }
        if figure == self.duels[idx].figure_a {
            return Err(DuelError::DuplicatePersona);
        }
        let stake = self.duels[idx].stake;
        let ok = self.stakes.debit(&sender, stake);
        if !ok {
            return Err(DuelError::InsufficientBalance);
        }
        let ghost s0 = old(self).duels@;
        let mut d = self.duels.remove(idx);
        d.start_time = Some(now);
        d.player_b = Some(sender);
        d.figure_b = Some(figure);
        let ghost dg = d;
        self.duels.insert(idx, d);
        proof {
            assert(self.duels@ =~= s0.update(idx as int, dg));
            assert(dg@.wf());
            lemma_locked_from_update(s0, idx as int, dg, 0);
            assert forall|x: int, y: int| 0 <= x < y < self.duels@.len() implies (
            #[trigger] self.duels@[x]).id != (#[trigger] self.duels@[y]).id by {
                assert(s0[x].id != s0[y].id);
            }
        }
        Ok(())
    }

    /// Take the caller's turn in an active duel: resolve the damage from the
    /// attacker's attributes, the chosen style, the previous style and one
    /// host-supplied random byte, and append the turn. The tenth turn
    /// settles the duel: the winner by cumulative damage is paid the pot
    /// minus the fee and the fee is burnt, while a draw refunds each side
    /// its own stake; the implied external calls are returned for the host
    /// to issue. Fails, changing nothing, when the duel is missing, not
    /// open for turns, or it is not the caller's turn.
    pub fn take_turn(
        &mut self,
        sender: String,
        duel_id: u128,
        style: RoastStyle,
        now: u64,
        random_byte: u8,
    ) -> (r: Result<TurnOutcome, DuelError>)
        requires
            old(self).wf(),
        ensures
            final(self).wf(),
            r is Err ==> *final(self) == *old(self),
            r matches Err(e) ==> (e == DuelError::NotFound || e == DuelError::DuelComplete || e
                == DuelError::NotYourTurn),
            r == Err::<TurnOutcome, DuelError>(DuelError::NotFound) <==> (forall|j: int|
                0 <= j < old(self).duels@.len() ==> (#[trigger] old(self).duels@[j]).id
                    != duel_id),
            forall|j: int|
                0 <= j < old(self).duels@.len() && (#[trigger] old(self).duels@[j]).id == duel_id
                    ==> {
                    let d = old(self).duels@[j]@;
                    &&& (r == Err::<TurnOutcome, DuelError>(DuelError::DuelComplete) <==> (
                    d.player_b is None || d.winner is Some))
                    &&& (d.player_b is Some && d.winner is None ==> (r == Err::<
                        TurnOutcome,
                        DuelError,
                    >(DuelError::NotYourTurn) <==> sender@ != current_player(d)))
                    &&& (r is Ok <==> d.player_b is Some && d.winner is None && sender@
                        == current_player(d))
                    &&& (r matches Ok(out) ==> {
                        let d2 = apply_turn(d, style, now, random_byte);
                        &&& out.damage as int == crate::combat::spec_resolve(
                            crate::figures::spec_stats(attacker_figure(d)),
                            style,
                            last_style(d.turns),
                            random_byte,
                        )
                        &&& final(self).duels@.len() == old(self).duels@.len()
                        &&& (forall|k: int|
                            0 <= k < old(self).duels@.len() && k != j ==> final(self).duels@[k]
                                == old(self).duels@[k])
                        &&& final(self).duels@[j]@ == d2
                        &&& (d2.winner is None ==> out.settlement@.len() == 0
                            && final(self).total_stake == old(self).total_stake)
                        &&& (d2.winner matches Some(w) ==> {
                            &&& crate::settlement::acts_view(out.settlement@)
                                == crate::settlement::spec_settlement(
                                w,
                                d.player_a,
                                d.player_b->0,
                                d.stake,
                            )
                            &&& final(self).total_stake == old(self).total_stake - (if w
                                == Winner::Draw {
                                2 * d.stake
                            } else {
                                2 * d.stake - crate::settlement::spec_fee(d.stake)
                            })
                        })
                        &&& final(self).stakes == old(self).stakes
                        &&& final(self).next_duel_id == old(self).next_duel_id
                        &&& final(self).same_config(*old(self))
                    })
                },
    {
        let idx = match self.find_duel(duel_id) {
            None => {
                return Err(DuelError::NotFound);
            },
            Some(i) => i,
        };
        if self.duels[idx].player_b.is_none() || self.duels[idx].winner.is_some() {
            return Err(DuelError::DuelComplete);
        }
        let n = self.duels[idx].turns.len();
        let is_player_a = n % 2 == 0;
        let current_matches = if is_player_a {
            sender == self.duels[idx].player_a
        } else {
            match &self.duels[idx].player_b {
                Some(p) => sender == *p,
                None => false,
            }
        };
        if !current_matches {
            return Err(DuelError::NotYourTurn);
        }
        let figure = if is_player_a {
            self.duels[idx].figure_a
        } else {
            match self.duels[idx].figure_b {
                Some(f) => f,
                // An accepted duel always carries both personas.
                None => self.duels[idx].figure_a,
            }
        };
        let stats = figure.stats();
        let prev = if n == 0 {
            None
        } else {
            Some(self.duels[idx].turns[n - 1].style)
        };
        let damage = crate::combat::resolve(&stats, style, prev, random_byte);
        let ghost s0 = old(self).duels@;
        let ghost dv0 = old(self).duels@[idx as int]@;
        proof {
            old(self).stakes.lemma_balance_never_negative(sender@);
            lemma_locked_le_total(s0, idx as int, 0);
            assert(locked_amount(dv0) == 2 * dv0.stake);
        }
        let mut d = self.duels.remove(idx);
        d.turns.push(crate::storage::Turn { creation_time: now, damage, style, roast_cid: None });
        let mut settlement: Vec<ExternalAction> = Vec::new();
        if d.turns.len() == crate::MAX_TURNS {
            let (da, db) = crate::settlement::damage_totals(&d.turns);
            let reward = d.stake * 2;
            let fee = reward / 10;
            if da > db {
                d.winner = Some(Winner::PlayerA);
                settlement.push(ExternalAction::Burn { amount: fee });
                settlement.push(
                    ExternalAction::Transfer {
                        recipient: d.player_a.clone(),
                        amount: reward - fee,
                    },
                );
                self.total_stake = self.total_stake - (reward - fee);
            } else if da < db {
                d.winner = Some(Winner::PlayerB);
                let recipient = match &d.player_b {
                    Some(p) => p.clone(),
                    // An accepted duel always carries both players.
                    None => d.player_a.clone(),
                };
                settlement.push(ExternalAction::Burn { amount: fee });
                settlement.push(ExternalAction::Transfer { recipient, amount: reward - fee });
                self.total_stake = self.total_stake - (reward - fee);
            } else {
                d.winner = Some(Winner::Draw);
                let recipient_b = match &d.player_b {
                    Some(p) => p.clone(),
                    // An accepted duel always carries both players.
                    None => d.player_a.clone(),
                };
                settlement.push(
                    ExternalAction::Transfer { recipient: d.player_a.clone(), amount: d.stake },
                );
                settlement.push(ExternalAction::Transfer { recipient: recipient_b, amount: d.stake });
                self.total_stake = self.total_stake - reward;
            }
            proof {
                assert(crate::settlement::acts_view(settlement@)
                    =~= crate::settlement::spec_settlement(
                    d@.winner->0,
                    dv0.player_a,
                    dv0.player_b->0,
                    dv0.stake,
                ));
            }
        }
        let ghost dg = d;
        self.duels.insert(idx, d);
        proof {
            assert(self.duels@ =~= s0.update(idx as int, dg));
            assert(dg@ =~= apply_turn(dv0, style, now, random_byte));
            assert(dg@.wf());
            lemma_locked_from_update(s0, idx as int, dg, 0);
            assert forall|x: int, y: int| 0 <= x < y < self.duels@.len() implies (
            #[trigger] self.duels@[x]).id != (#[trigger] self.duels@[y]).id by {
                assert(s0[x].id != s0[y].id);
            }
        }
        Ok(TurnOutcome { damage, settlement })
    }

    /// Cancel a duel and refund its locked stakes. The creator may cancel a
    /// pending duel a day after creation; the side waiting on the other's
    /// move may cancel an active duel two days after the last activity. A
    /// settled duel can no longer be canceled. The duel record is removed
    /// and the refunds are returned as external calls for the host to
    /// issue; failures change nothing.
    pub fn cancel_duel(&mut self, sender: String, duel_id: u128, now: u64) -> (r: Result<
        Vec<ExternalAction>,
        DuelError,
    >)
        requires
            old(self).wf(),
        ensures
            final(self).wf(),
            r is Err ==> *final(self) == *old(self),
            r == Err::<Vec<ExternalAction>, DuelError>(DuelError::NotFound) <==> (forall|j: int|
                0 <= j < old(self).duels@.len() ==> (#[trigger] old(self).duels@[j]).id
                    != duel_id),
            forall|j: int|
                0 <= j < old(self).duels@.len() && (#[trigger] old(self).duels@[j]).id == duel_id
                    ==> {
                    let d = old(self).duels@[j]@;
                    &&& (r == Err::<Vec<ExternalAction>, DuelError>(DuelError::DuelComplete) <==> d.winner is Some)
                    &&& (d.winner is None && d.player_b is None ==> {
                        &&& (r == Err::<Vec<ExternalAction>, DuelError>(DuelError::NotParticipant)
                            <==> sender@ != d.player_a)
                        &&& (sender@ == d.player_a ==> (r == Err::<Vec<ExternalAction>, DuelError>(
                            DuelError::TooEarly,
                        ) <==> (now as int) < d.creation_time + PENDING_CANCEL_WAIT))
                        &&& (r is Ok <==> sender@ == d.player_a && (now as int) >= d.creation_time
                            + PENDING_CANCEL_WAIT)
                        &&& (r matches Ok(acts) ==> {
                            &&& crate::settlement::acts_view(acts@) =~= seq![
                                crate::settlement::ActionView::Transfer {
                                    recipient: d.player_a,
                                    amount: d.stake,
                                },
                            ]
                            &&& final(self).total_stake == old(self).total_stake - d.stake
                        })
                    })
                    &&& (d.winner is None && d.player_b is Some ==> {
                        &&& (r == Err::<Vec<ExternalAction>, DuelError>(DuelError::NotOpponent)
                            <==> sender@ != waiting_player(d))
                        &&& (sender@ == waiting_player(d) ==> (r == Err::<
                            Vec<ExternalAction>,
                            DuelError,
                        >(DuelError::TooEarly) <==> (now as int) < last_activity(d)
                            + ACTIVE_CANCEL_WAIT))
                        &&& (r is Ok <==> sender@ == waiting_player(d) && (now as int)
                            >= last_activity(d) + ACTIVE_CANCEL_WAIT)
                        &&& (r matches Ok(acts) ==> {
                            &&& crate::settlement::acts_view(acts@) =~= (if d.turns.len() % 2
                                == 0 {
                                seq![
                                    crate::settlement::ActionView::Transfer {
                                        recipient: d.player_a,
                                        amount: d.stake,
                                    },
                                    crate::settlement::ActionView::Transfer {
                                        recipient: d.player_b->0,
                                        amount: d.stake,
                                    },
                                ]
                            } else {
                                seq![
                                    crate::settlement::ActionView::Transfer {
                                        recipient: d.player_b->0,
                                        amount: d.stake,
                                    },
                                    crate::settlement::ActionView::Transfer {
                                        recipient: d.player_a,
                                        amount: d.stake,
                                    },
                                ]
                            })
                            &&& final(self).total_stake == old(self).total_stake - 2 * d.stake
                        })
                    })
                    &&& (r is Ok ==> {
                        &&& final(self).duels@ == old(self).duels@.remove(j)
                        &&& final(self).stakes == old(self).stakes
                        &&& final(self).next_duel_id == old(self).next_duel_id
                        &&& final(self).same_config(*old(self))
                    })
                },
    {
        let idx = match self.find_duel(duel_id) {
            None => {
                return Err(DuelError::NotFound);
            },
            Some(i) => i,
        };
        if self.duels[idx].winner.is_some() {
            return Err(DuelError::DuelComplete);
        }
        let ghost s0 = old(self).duels@;
        let ghost dv0 = old(self).duels@[idx as int]@;
        if self.duels[idx].player_b.is_none() {
            if !(sender == self.duels[idx].player_a) {
                return Err(DuelError::NotParticipant);
            }
            if (now as u128) < self.duels[idx].creation_time as u128 + PENDING_CANCEL_WAIT {
                return Err(DuelError::TooEarly);
            }
            proof {
                old(self).stakes.lemma_balance_never_negative(sender@);
                lemma_locked_le_total(s0, idx as int, 0);
                lemma_locked_from_remove(s0, idx as int, 0);
            }
            let d = self.duels.remove(idx);
            self.total_stake = self.total_stake - d.stake;
            let mut acts: Vec<ExternalAction> = Vec::new();
            acts.push(ExternalAction::Transfer { recipient: d.player_a, amount: d.stake });
            proof {
                assert(crate::settlement::acts_view(acts@) =~= seq![
                    crate::settlement::ActionView::Transfer {
                        recipient: dv0.player_a,
                        amount: dv0.stake,
                    },
                ]);
            }
            return Ok(acts);
        }
        let n = self.duels[idx].turns.len();
        let is_player_a_turn = n % 2 == 0;
        let waiting_matches = if is_player_a_turn {
            match &self.duels[idx].player_b {
                Some(p) => sender == *p,
                None => false,
            }
        } else {
            sender == self.duels[idx].player_a
        };
        if !waiting_matches {
            return Err(DuelError::NotOpponent);
        }
        let last = if n > 0 {
            self.duels[idx].turns[n - 1].creation_time
        } else {
            match self.duels[idx].start_time {
                Some(t) => t,
                None => 0,
            }
        };
        if (now as u128) < last as u128 + ACTIVE_CANCEL_WAIT {
            return Err(DuelError::TooEarly);
        }
        proof {
            old(self).stakes.lemma_balance_never_negative(sender@);
            lemma_locked_le_total(s0, idx as int, 0);
            lemma_locked_from_remove(s0, idx as int, 0);
            assert(locked_amount(dv0) == 2 * dv0.stake);
        }
        let d = self.duels.remove(idx);
        self.total_stake = self.total_stake - (d.stake + d.stake);
        let pb = match &d.player_b {
            Some(p) => p.clone(),
            // An accepted duel always carries both players.
            None => d.player_a.clone(),
        };
        let mut acts: Vec<ExternalAction> = Vec::new();
        if is_player_a_turn {
            acts.push(ExternalAction::Transfer { recipient: d.player_a, amount: d.stake });
            acts.push(ExternalAction::Transfer { recipient: pb, amount: d.stake });
        } else {
            acts.push(ExternalAction::Transfer { recipient: pb, amount: d.stake });
            acts.push(ExternalAction::Transfer { recipient: d.player_a, amount: d.stake });
        }
        proof {
            if dv0.turns.len() % 2 == 0 {
                assert(crate::settlement::acts_view(acts@) =~= seq![
                    crate::settlement::ActionView::Transfer {
                        recipient: dv0.player_a,
                        amount: dv0.stake,
                    },
                    crate::settlement::ActionView::Transfer {
                        recipient: dv0.player_b->0,
                        amount: dv0.stake,
                    },
                ]);
            } else {
                assert(crate::settlement::acts_view(acts@) =~= seq![
                    crate::settlement::ActionView::Transfer {
                        recipient: dv0.player_b->0,
                        amount: dv0.stake,
                    },
                    crate::settlement::ActionView::Transfer {
                        recipient: dv0.player_a,
                        amount: dv0.stake,
                    },
                ]);
            }
        }
        Ok(acts)
    }

    /// Attach an opaque annotation reference to one existing turn, exactly
    /// once per turn. Only the administrator may do this; failures change
    /// nothing.
    pub fn set_roast(
        &mut self,
        sender: String,
        duel_id: u128,
        turn: usize,
        roast_cid: String,
    ) -> (r: Result<(), DuelError>)
        requires
            old(self).wf(),
        ensures
            final(self).wf(),
            r is Err ==> *final(self) == *old(self),
            r == Err::<(), DuelError>(DuelError::NotAdmin) <==> sender@ != old(self).admin_id@,
            sender@ == old(self).admin_id@ ==> (r == Err::<(), DuelError>(DuelError::NotFound)
                <==> (forall|j: int|
                0 <= j < old(self).duels@.len() ==> (#[trigger] old(self).duels@[j]).id
                    != duel_id)),
            sender@ == old(self).admin_id@ ==> (forall|j: int|
                0 <= j < old(self).duels@.len() && (#[trigger] old(self).duels@[j]).id == duel_id
                    ==> {
                    let d = old(self).duels@[j]@;
                    &&& (r == Err::<(), DuelError>(DuelError::TurnNotTaken) <==> turn
                        >= d.turns.len())
                    &&& (turn < d.turns.len() ==> (r == Err::<(), DuelError>(
                        DuelError::AlreadyAnnotated,
                    ) <==> d.turns[turn as int].roast_cid is Some))
                    &&& (r is Ok <==> turn < d.turns.len() && d.turns[turn as int].roast_cid
                        is None)
                    &&& (r is Ok ==> {
                        &&& final(self).duels@.len() == old(self).duels@.len()
                        &&& (forall|k: int|
                            0 <= k < old(self).duels@.len() && k != j ==> final(self).duels@[k]
                                == old(self).duels@[k])
                        &&& final(self).duels@[j]@ == (DuelView {
                            turns: d.turns.update(
                                turn as int,
                                (crate::storage::Turn {
                                    roast_cid: Some(roast_cid),
                                    ..d.turns[turn as int]
                                }),
                            ),
                            ..d
                        })
                        &&& final(self).stakes == old(self).stakes
                        &&& final(self).total_stake == old(self).total_stake
                        &&& final(self).next_duel_id == old(self).next_duel_id
                        &&& final(self).same_config(*old(self))
                    })
                }),
    {
        if !(sender == self.admin_id) {
            return Err(DuelError::NotAdmin);
        }
        let idx = match self.find_duel(duel_id) {
            None => {
                return Err(DuelError::NotFound);
            },
            Some(i) => i,
        };
        if turn >= self.duels[idx].turns.len() {
            return Err(DuelError::TurnNotTaken);
        }
        if self.duels[idx].turns[turn].roast_cid.is_some() {
            return Err(DuelError::AlreadyAnnotated);
        }
        let ghost s0 = old(self).duels@;
        let ghost dv0 = old(self).duels@[idx as int]@;
        let mut d = self.duels.remove(idx);
        let t = crate::storage::Turn {
            creation_time: d.turns[turn].creation_time,
            damage: d.turns[turn].damage,
            style: d.turns[turn].style,
            roast_cid: Some(roast_cid),
        };
        d.turns.set(turn, t);
        let ghost dg = d;
        self.duels.insert(idx, d);
        proof {
            assert(self.duels@ =~= s0.update(idx as int, dg));
            assert(dg@ =~= (DuelView {
                turns: dv0.turns.update(
                    turn as int,
                    (crate::storage::Turn {
                        roast_cid: dg@.turns[turn as int].roast_cid,
                        ..dv0.turns[turn as int]
                    }),
                ),
                ..dv0
            }));
            assert(dg@.wf());
            lemma_locked_from_update(s0, idx as int, dg, 0);
            assert forall|x: int, y: int| 0 <= x < y < self.duels@.len() implies (
            #[trigger] self.duels@[x]).id != (#[trigger] self.duels@[y]).id by {
                assert(s0[x].id != s0[y].id);
            }
        }
        Ok(())
    }

    /// An incoming deposit notification from the external ledger service:
    /// credit the sender's balance and raise believed total custody by the
    /// deposited amount, then dispatch the decoded intent, if any,
    /// atomically with the credit. A deposit without an intent only credits
    /// the balance; a deposit whose intent cannot be honoured is rejected
    /// whole, changing nothing.
    pub fn ft_on_transfer(
        &mut self,
        sender_id: String,
        amount: u128,
        msg: Option<Msg>,
        now: u64,
    ) -> (r: Result<(), DuelError>)
        requires
            old(self).wf(),
            old(self).total_stake + amount <= u128::MAX,
            old(self).next_duel_id < u128::MAX,
        ensures
            final(self).wf(),
            r is Err ==> *final(self) == *old(self),
            r is Ok ==> final(self).total_stake == old(self).total_stake + amount
                && final(self).same_config(*old(self)),
            msg is None ==> {
                &&& r is Ok
                &&& final(self).stakes.spec_balance(sender_id@) == old(self).stakes.spec_balance(
                    sender_id@,
                ) + amount
                &&& (forall|b: Seq<char>|
                    b != sender_id@ ==> final(self).stakes.spec_balance(b) == old(
                        self,
                    ).stakes.spec_balance(b))
                &&& final(self).stakes.spec_sum() == old(self).stakes.spec_sum() + amount
                &&& final(self).duels@ == old(self).duels@
                &&& final(self).next_duel_id == old(self).next_duel_id
            },
            msg matches Some(Msg::CreateDuel { figure }) ==> {
                &&& (r is Ok <==> amount >= MIN_STAKE)
                &&& (r is Err ==> r == Err::<(), DuelError>(DuelError::BelowMinimumStake))
                &&& (r is Ok ==> {
                    &&& (forall|b: Seq<char>|
                        final(self).stakes.spec_balance(b) == old(self).stakes.spec_balance(b))
                    &&& final(self).stakes.spec_sum() == old(self).stakes.spec_sum()
                    &&& final(self).next_duel_id == old(self).next_duel_id + 1
                    &&& final(self).duels@.len() == old(self).duels@.len() + 1
                    &&& (forall|j: int|
                        0 <= j < old(self).duels@.len() ==> final(self).duels@[j] == old(
                            self,
                        ).duels@[j])
                    &&& final(self).duels@.last()@ == (DuelView {
                        id: old(self).next_duel_id,
                        creation_time: now,
                        start_time: None,
                        stake: amount,
                        player_a: sender_id@,
                        figure_a: figure,
                        player_b: None,
                        figure_b: None,
                        turns: Seq::empty(),
                        winner: None,
                    })
                })
            },
            msg matches Some(Msg::AcceptDuel { duel_id, figure }) ==> {
                &&& (r == Err::<(), DuelError>(DuelError::NotFound) <==> (forall|j: int|
                    0 <= j < old(self).duels@.len() ==> (#[trigger] old(self).duels@[j]).id
                        != duel_id))
                &&& (forall|j: int|
                    0 <= j < old(self).duels@.len() && (#[trigger] old(self).duels@[j]).id
                        == duel_id ==> {
                        let d = old(self).duels@[j]@;
                        &&& (r == Err::<(), DuelError>(DuelError::AlreadyAccepted) <==> d.player_b
                            is Some)
                        &&& (d.player_b is None ==> (r == Err::<(), DuelError>(
                            DuelError::SelfParticipation,
                        ) <==> sender_id@ == d.player_a))
                        &&& (d.player_b is None && sender_id@ != d.player_a ==> (r == Err::<
                            (),
                            DuelError,
                        >(DuelError::DuplicatePersona) <==> figure == d.figure_a))
                        &&& (d.player_b is None && sender_id@ != d.player_a && figure != d.figure_a
                            ==> (r == Err::<(), DuelError>(DuelError::InsufficientBalance) <==> old(
                            self,
                        ).stakes.spec_balance(sender_id@) + amount < d.stake))
                        &&& (r is Ok <==> d.player_b is None && sender_id@ != d.player_a && figure
                            != d.figure_a && old(self).stakes.spec_balance(sender_id@) + amount
                            >= d.stake)
                        &&& (r is Ok ==> {
                            &&& final(self).stakes.spec_balance(sender_id@) == old(
                                self,
                            ).stakes.spec_balance(sender_id@) + amount - d.stake
                            &&& (forall|b: Seq<char>|
                                b != sender_id@ ==> final(self).stakes.spec_balance(b) == old(
                                    self,
                                ).stakes.spec_balance(b))
                            &&& final(self).stakes.spec_sum() == old(self).stakes.spec_sum()
                                + amount - d.stake
                            &&& final(self).duels@.len() == old(self).duels@.len()
                            &&& (forall|k: int|
                                0 <= k < old(self).duels@.len() && k != j ==> final(self).duels@[k] == old(self).duels@[k])
                            &&& final(self).duels@[j]@ == (DuelView {
                                start_time: Some(now),
                                player_b: Some(sender_id@),
                                figure_b: Some(figure),
                                ..d
                            })
                            &&& final(self).next_duel_id == old(self).next_duel_id
                        })
                    })
            },
    {
        proof {
            old(self).stakes.lemma_balance_le_sum(sender_id@);
            lemma_locked_from_nonneg(old(self).duels@, 0);
        }
        match msg {
            None => {
                self.stakes.credit(&sender_id, amount);
                self.total_stake = self.total_stake + amount;
                Ok(())
            },
            Some(Msg::CreateDuel { figure }) => {
                if amount < MIN_STAKE {
                    return Err(DuelError::BelowMinimumStake);
                }
                self.stakes.credit(&sender_id, amount);
                self.total_stake = self.total_stake + amount;
                let created = self.create_duel(sender_id, figure, amount, now);
                proof {
                    assert(created is Ok);
                }
                Ok(())
            },
            Some(Msg::AcceptDuel { duel_id, figure }) => {
                let idx = match self.find_duel(duel_id) {
                    None => {
                        return Err(DuelError::NotFound);
                    },
                    Some(i) => i,
                };
                if self.duels[idx].player_b.is_some() {
                    return Err(DuelError::AlreadyAccepted);
                }
                if sender_id == self.duels[idx].player_a {
                    return Err(DuelError::SelfParticipation);
                }
                if figure == self.duels[idx].figure_a {
                    return Err(DuelError::DuplicatePersona);
                }
                let stake = self.duels[idx].stake;
                let bal = self.stakes.get(&sender_id);
                if bal + amount < stake {
                    return Err(DuelError::InsufficientBalance);
                }
                self.stakes.credit(&sender_id, amount);
                self.total_stake = self.total_stake + amount;
                let accepted = self.accept_duel(sender_id, duel_id, figure, now);
                proof {
                    assert(accepted is Ok);
                }
                Ok(())
            },
        }
    }
}

} // verus!
