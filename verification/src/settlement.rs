//! Settlement of terminal duel outcomes: the external transfer/burn calls a
//! terminal state implies, and the reconciliation of believed custody
//! against the externally held balance.
use vstd::prelude::*;
use crate::storage::{Turn, Winner};

verus! {

/// One call the embedding host must issue to the external ledger service.
#[derive(Debug, PartialEq, Eq)]
pub enum ExternalAction {
    /// Move `amount` out of this system's custody to `recipient`.
    Transfer { recipient: String, amount: u128 },
    /// Permanently destroy `amount` of this system's held custody.
    Burn { amount: u128 },
}

/// The mathematical value of an [`ExternalAction`].
#[verifier::ext_equal]
pub ghost enum ActionView {
    Transfer { recipient: Seq<char>, amount: u128 },
    Burn { amount: u128 },
}

impl View for ExternalAction {
    type V = ActionView;

    open spec fn view(&self) -> ActionView {
        match self {
            ExternalAction::Transfer { recipient, amount } => ActionView::Transfer {
                recipient: recipient@,
                amount: *amount,
            },
            ExternalAction::Burn { amount } => ActionView::Burn { amount: *amount },
        }
    }
}

/// The views of a list of actions.
pub open spec fn acts_view(s: Seq<ExternalAction>) -> Seq<ActionView> {
    s.map_values(|a: ExternalAction| a@)
}

/// Player A's cumulative damage: the damage at even indices of `s` from
/// index `i` on (player B's is the damage at odd indices).
pub open spec fn dmg_from(s: Seq<Turn>, parity: int, i: int) -> int
    decreases s.len() - i,
{
    if i < 0 || i >= s.len() {
        0
    } else {
        (if i % 2 == parity {
            s[i].damage as int
        } else {
            0
        }) + dmg_from(s, parity, i + 1)
    }
}

/// Player A's total damage over a turn sequence.
pub open spec fn damage_a(s: Seq<Turn>) -> int {
    dmg_from(s, 0, 0)
}

/// Player B's total damage over a turn sequence.
pub open spec fn damage_b(s: Seq<Turn>) -> int {
    dmg_from(s, 1, 0)
}

/// The outcome determined by a completed turn sequence: whoever dealt the
/// greater cumulative damage, a draw on equality.
pub open spec fn spec_winner(s: Seq<Turn>) -> Winner {
    if damage_a(s) > damage_b(s) {
        Winner::PlayerA
    } else if damage_a(s) < damage_b(s) {
        Winner::PlayerB
    } else {
        Winner::Draw
    }
}

proof fn lemma_dmg_from_bound(s: Seq<Turn>, parity: int, i: int)
    requires
        forall|j: int| 0 <= j < s.len() ==> (#[trigger] s[j]).wf(),
        0 <= i <= s.len(),
    ensures
        0 <= dmg_from(s, parity, i) <= 15 * (s.len() - i),
    decreases s.len() - i,
{
    if i < s.len() {
        lemma_dmg_from_bound(s, parity, i + 1);
    }
}

/// Both players' cumulative damage over a duel's turns.
pub fn damage_totals(turns: &Vec<Turn>) -> (r: (u32, u32))
    requires
        turns@.len() <= 10,
        forall|j: int| 0 <= j < turns@.len() ==> (#[trigger] turns@[j]).wf(),
    ensures
        r.0 == damage_a(turns@),
        r.1 == damage_b(turns@),
{
    let ghost s = turns@;
    let mut da: u32 = 0;
    let mut db: u32 = 0;
    let mut i: usize = 0;
    proof {
        lemma_dmg_from_bound(s, 0, 0);
        lemma_dmg_from_bound(s, 1, 0);
    }
    while i < turns.len()
        invariant
            turns@ == s,
            0 <= i <= s.len() <= 10,
            forall|j: int| 0 <= j < s.len() ==> (#[trigger] s[j]).wf(),
            da + dmg_from(s, 0, i as int) == damage_a(s),
            db + dmg_from(s, 1, i as int) == damage_b(s),
            da <= 15 * i,
            db <= 15 * i,
        decreases s.len() - i,
    {
        proof {
            lemma_dmg_from_bound(s, 0, i + 1);
            lemma_dmg_from_bound(s, 1, i + 1);
        }
        if i % 2 == 0 {
            da = da + turns[i].damage as u32;
        } else {
            db = db + turns[i].damage as u32;
        }
        i = i + 1;
    }
    (da, db)
}

/// The protocol fee on a decisive outcome: a tenth of the pot (both stakes),
/// truncated.
pub open spec fn spec_fee(stake: u128) -> int {
    (2 * stake) / 10
}

/// The external calls a terminal outcome implies. A decisive winner is paid
/// the pot minus the fee and the fee is burnt; a draw refunds each player
/// exactly their own stake.
pub open spec fn spec_settlement(
    winner: Winner,
    player_a: Seq<char>,
    player_b: Seq<char>,
    stake: u128,
) -> Seq<ActionView> {
    let pot = 2 * stake;
    let fee = spec_fee(stake);
    match winner {
        Winner::PlayerA => seq![
            ActionView::Burn { amount: fee as u128 },
            ActionView::Transfer { recipient: player_a, amount: (pot - fee) as u128 },
        ],
        Winner::PlayerB => seq![
            ActionView::Burn { amount: fee as u128 },
            ActionView::Transfer { recipient: player_b, amount: (pot - fee) as u128 },
        ],
        Winner::Draw => seq![
            ActionView::Transfer { recipient: player_a, amount: stake },
            ActionView::Transfer { recipient: player_b, amount: stake },
        ],
    }
}

/// The draw path refunds each player exactly their original stake; a
/// decisive path pays the winner `2*stake - floor(2*stake/10)` and burns
/// `floor(2*stake/10)`.
pub proof fn lemma_settlement_amounts(
    winner: Winner,
    player_a: Seq<char>,
    player_b: Seq<char>,
    stake: u128,
)
    requires
        2 * stake <= u128::MAX,
    ensures
        winner == Winner::Draw ==> spec_settlement(winner, player_a, player_b, stake)
            =~= seq![
            ActionView::Transfer { recipient: player_a, amount: stake },
            ActionView::Transfer { recipient: player_b, amount: stake },
        ],
        winner == Winner::PlayerA ==> spec_settlement(winner, player_a, player_b, stake)
            =~= seq![
            ActionView::Burn { amount: ((2 * stake) / 10) as u128 },
            ActionView::Transfer {
                recipient: player_a,
                amount: (2 * stake - (2 * stake) / 10) as u128,
            },
        ],
        winner == Winner::PlayerB ==> spec_settlement(winner, player_a, player_b, stake)
            =~= seq![
            ActionView::Burn { amount: ((2 * stake) / 10) as u128 },
            ActionView::Transfer {
                recipient: player_b,
                amount: (2 * stake - (2 * stake) / 10) as u128,
            },
        ],
{
}

/// What reconciliation burns, given the believed total custody and the
/// externally held balance (when the query delivered one): exactly the
/// surplus of the external balance over believed custody, nothing otherwise.
pub open spec fn spec_reconcile_burn(total: int, balance: Option<u128>) -> Option<u128> {
    match balance {
        Some(b) => if b > total {
            Some((b - total) as u128)
        } else {
            None
        },
        None => None,
    }
}

/// Reconciliation is idempotent: once the surplus is burnt the external
/// balance equals believed custody, so a second reconciliation with no
/// intervening external credit burns zero.
pub proof fn lemma_reconcile_idempotent(total: int, balance: u128)
    requires
        total >= 0,
    ensures
        spec_reconcile_burn(total, Some(balance)) matches Some(burnt) ==> spec_reconcile_burn(
            total,
            Some((balance - burnt) as u128),
        ) is None,
{
}

} // verus!
