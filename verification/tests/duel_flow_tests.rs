use duel_manager::contract::{DuelError, DuelManagerContract};
use duel_manager::figures::HistoricalFigure;
use duel_manager::settlement::ExternalAction;
use duel_manager::storage::{RoastStyle, Winner};
use duel_manager::MIN_STAKE;

const DAY: u64 = 86_400_000_000_000;
const SECOND: u64 = 1_000_000_000;

fn setup() -> DuelManagerContract {
    DuelManagerContract::new("admin".to_string(), "ft".to_string())
}

fn fund(c: &mut DuelManagerContract, who: &str, amount: u128) {
    c.ft_on_transfer(who.to_string(), amount, None, 0).unwrap();
}

/// A funded duel between alice (MarkTwain) and bob (GenghisKhan), accepted.
fn active_duel(c: &mut DuelManagerContract) -> u128 {
    fund(c, "alice", MIN_STAKE);
    fund(c, "bob", MIN_STAKE);
    let id = c
        .create_duel("alice".to_string(), HistoricalFigure::MarkTwain, MIN_STAKE, 100)
        .unwrap();
    c.accept_duel("bob".to_string(), id, HistoricalFigure::GenghisKhan, 200)
        .unwrap();
    id
}

#[test]
fn create_duel_locks_stake_and_assigns_ids() {
    let mut c = setup();
    fund(&mut c, "alice", 3 * MIN_STAKE);
    let id0 = c
        .create_duel("alice".to_string(), HistoricalFigure::Socrates, MIN_STAKE, 7)
        .unwrap();
    let id1 = c
        .create_duel("alice".to_string(), HistoricalFigure::Socrates, MIN_STAKE, 8)
        .unwrap();
    assert_eq!(id0, 0);
    assert_eq!(id1, 1);
    assert_eq!(c.get_balance("alice".to_string()), MIN_STAKE);
    let d = c.get_duel(id0).unwrap();
    assert_eq!(d.player_a, "alice".to_string());
    assert_eq!(d.stake, MIN_STAKE);
    assert_eq!(d.creation_time, 7);
    assert!(d.player_b.is_none());
    assert!(d.winner.is_none());
    assert!(d.turns.is_empty());
}

#[test]
fn create_duel_rejects_small_stakes_and_poor_accounts() {
    let mut c = setup();
    fund(&mut c, "alice", MIN_STAKE);
    assert_eq!(
        c.create_duel("alice".to_string(), HistoricalFigure::Socrates, MIN_STAKE - 1, 0),
        Err(DuelError::BelowMinimumStake)
    );
    assert_eq!(
        c.create_duel("alice".to_string(), HistoricalFigure::Socrates, MIN_STAKE + 1, 0),
        Err(DuelError::InsufficientBalance)
    );
    assert_eq!(c.get_balance("alice".to_string()), MIN_STAKE);
}

#[test]
fn accept_duel_rejects_duplicate_persona() {
    let mut c = setup();
    fund(&mut c, "alice", MIN_STAKE);
    fund(&mut c, "bob", MIN_STAKE);
    let id = c
        .create_duel("alice".to_string(), HistoricalFigure::MarkTwain, MIN_STAKE, 0)
        .unwrap();
    assert_eq!(
        c.accept_duel("bob".to_string(), id, HistoricalFigure::MarkTwain, 1),
        Err(DuelError::DuplicatePersona)
    );
}

#[test]
fn accept_duel_rejects_self_missing_and_repeat() {
    let mut c = setup();
    fund(&mut c, "alice", 2 * MIN_STAKE);
    fund(&mut c, "bob", MIN_STAKE);
    fund(&mut c, "carol", MIN_STAKE);
    let id = c
        .create_duel("alice".to_string(), HistoricalFigure::MarkTwain, MIN_STAKE, 0)
        .unwrap();
    assert_eq!(
        c.accept_duel("alice".to_string(), id, HistoricalFigure::SunTzu, 1),
        Err(DuelError::SelfParticipation)
    );
    assert_eq!(
        c.accept_duel("bob".to_string(), 9, HistoricalFigure::SunTzu, 1),
        Err(DuelError::NotFound)
    );
    assert_eq!(
        c.accept_duel("dave".to_string(), id, HistoricalFigure::SunTzu, 1),
        Err(DuelError::InsufficientBalance)
    );
    c.accept_duel("bob".to_string(), id, HistoricalFigure::SunTzu, 5).unwrap();
    assert_eq!(
        c.accept_duel("carol".to_string(), id, HistoricalFigure::Socrates, 6),
        Err(DuelError::AlreadyAccepted)
    );
    let d = c.get_duel(id).unwrap();
    assert_eq!(d.player_b, Some("bob".to_string()));
    assert_eq!(d.figure_b, Some(HistoricalFigure::SunTzu));
    assert_eq!(d.start_time, Some(5));
}

#[test]
fn turn_taking_enforces_parity_and_state() {
    let mut c = setup();
    let id = active_duel(&mut c);
    assert_eq!(
        c.take_turn("bob".to_string(), id, RoastStyle::Witty, 300, 0),
        Err(DuelError::NotYourTurn)
    );
    assert_eq!(
        c.take_turn("alice".to_string(), 9, RoastStyle::Witty, 300, 0),
        Err(DuelError::NotFound)
    );
    let out = c
        .take_turn("alice".to_string(), id, RoastStyle::Witty, 300, 0)
        .unwrap();
    assert_eq!(out.damage, 1);
    assert!(out.settlement.is_empty());
    assert_eq!(
        c.take_turn("alice".to_string(), id, RoastStyle::Witty, 301, 0),
        Err(DuelError::NotYourTurn)
    );
}

#[test]
fn turns_on_a_pending_duel_are_rejected() {
    let mut c = setup();
    fund(&mut c, "alice", MIN_STAKE);
    let id = c
        .create_duel("alice".to_string(), HistoricalFigure::MarkTwain, MIN_STAKE, 0)
        .unwrap();
    assert_eq!(
        c.take_turn("alice".to_string(), id, RoastStyle::Witty, 1, 0),
        Err(DuelError::DuelComplete)
    );
}

#[test]
fn decisive_duel_pays_winner_and_burns_fee() {
    let mut c = setup();
    let id = active_duel(&mut c);
    // Both sides keep playing Witty: no strong/weak modifiers after the
    // first turn either. Alice (wit 10) rolls 9 -> 10 damage; bob (wit 2)
    // rolls 1 -> 2 damage.
    for turn in 0..10u64 {
        let (who, byte) = if turn % 2 == 0 { ("alice", 9u8) } else { ("bob", 1u8) };
        let out = c
            .take_turn(who.to_string(), id, RoastStyle::Witty, 1000 + turn, byte)
            .unwrap();
        if turn % 2 == 0 {
            assert_eq!(out.damage, 10);
        } else {
            assert_eq!(out.damage, 2);
        }
        let d = c.get_duel(id).unwrap();
        assert_eq!(d.turns.len() as u64, turn + 1);
        // The winner is set exactly when the tenth turn has been taken.
        assert_eq!(d.winner.is_some(), turn == 9);
        if turn < 9 {
            assert!(out.settlement.is_empty());
        } else {
            let pot = 2 * MIN_STAKE;
            let fee = pot / 10;
            assert_eq!(
                out.settlement,
                vec![
                    ExternalAction::Burn { amount: fee },
                    ExternalAction::Transfer {
                        recipient: "alice".to_string(),
                        amount: pot - fee,
                    },
                ]
            );
            assert_eq!(d.winner, Some(Winner::PlayerA));
        }
    }
    assert_eq!(
        c.take_turn("alice".to_string(), id, RoastStyle::Witty, 2000, 0),
        Err(DuelError::DuelComplete)
    );
}

#[test]
fn drawn_duel_refunds_both_stakes() {
    let mut c = setup();
    let id = active_duel(&mut c);
    // Mocking against Mocking carries no modifier; byte 0 deals 1 damage
    // for both sides every turn, so the totals tie at 5 each.
    for turn in 0..10u64 {
        let who = if turn % 2 == 0 { "alice" } else { "bob" };
        let out = c
            .take_turn(who.to_string(), id, RoastStyle::Mocking, 1000 + turn, 0)
            .unwrap();
        assert_eq!(out.damage, 1);
        if turn == 9 {
            assert_eq!(
                out.settlement,
                vec![
                    ExternalAction::Transfer {
                        recipient: "alice".to_string(),
                        amount: MIN_STAKE,
                    },
                    ExternalAction::Transfer {
                        recipient: "bob".to_string(),
                        amount: MIN_STAKE,
                    },
                ]
            );
        }
    }
    let d = c.get_duel(id).unwrap();
    assert_eq!(d.winner, Some(Winner::Draw));
}

#[test]
fn pending_cancel_needs_a_day() {
    let mut c = setup();
    fund(&mut c, "alice", MIN_STAKE);
    let id = c
        .create_duel("alice".to_string(), HistoricalFigure::MarkTwain, MIN_STAKE, 0)
        .unwrap();
    assert_eq!(
        c.cancel_duel("bob".to_string(), id, DAY + 1),
        Err(DuelError::NotParticipant)
    );
    // One hour in: too early.
    assert_eq!(
        c.cancel_duel("alice".to_string(), id, 3600 * SECOND),
        Err(DuelError::TooEarly)
    );
    // A day and a second in: the stake comes back whole.
    let acts = c.cancel_duel("alice".to_string(), id, DAY + SECOND).unwrap();
    assert_eq!(
        acts,
        vec![ExternalAction::Transfer { recipient: "alice".to_string(), amount: MIN_STAKE }]
    );
    assert!(c.get_duel(id).is_none());
    assert_eq!(c.cancel_duel("alice".to_string(), id, DAY + 2), Err(DuelError::NotFound));
}

#[test]
fn active_cancel_is_for_the_waiting_side_after_two_days() {
    let mut c = setup();
    let id = active_duel(&mut c);
    // No turn yet: it is alice's move, so only bob may cancel.
    assert_eq!(
        c.cancel_duel("alice".to_string(), id, 200 + 2 * DAY + 1),
        Err(DuelError::NotOpponent)
    );
    assert_eq!(
        c.cancel_duel("bob".to_string(), id, 200 + 3600 * SECOND),
        Err(DuelError::TooEarly)
    );
    let acts = c.cancel_duel("bob".to_string(), id, 200 + 2 * DAY + 1).unwrap();
    assert_eq!(
        acts,
        vec![
            ExternalAction::Transfer { recipient: "alice".to_string(), amount: MIN_STAKE },
            ExternalAction::Transfer { recipient: "bob".to_string(), amount: MIN_STAKE },
        ]
    );
    assert!(c.get_duel(id).is_none());
}

#[test]
fn active_cancel_counts_inactivity_from_the_last_turn() {
    let mut c = setup();
    let id = active_duel(&mut c);
    c.take_turn("alice".to_string(), id, RoastStyle::Witty, 500, 0).unwrap();
    // Now it is bob's move, so alice is the waiting side.
    assert_eq!(
        c.cancel_duel("bob".to_string(), id, 500 + 2 * DAY + 1),
        Err(DuelError::NotOpponent)
    );
    assert_eq!(
        c.cancel_duel("alice".to_string(), id, 500 + 2 * DAY - 1),
        Err(DuelError::TooEarly)
    );
    let acts = c.cancel_duel("alice".to_string(), id, 500 + 2 * DAY).unwrap();
    // The refund reaches the mover first, then the waiting side.
    assert_eq!(
        acts,
        vec![
            ExternalAction::Transfer { recipient: "bob".to_string(), amount: MIN_STAKE },
            ExternalAction::Transfer { recipient: "alice".to_string(), amount: MIN_STAKE },
        ]
    );
}

#[test]
fn settled_duels_cannot_be_canceled() {
    let mut c = setup();
    let id = active_duel(&mut c);
    for turn in 0..10u64 {
        let who = if turn % 2 == 0 { "alice" } else { "bob" };
        c.take_turn(who.to_string(), id, RoastStyle::Mocking, 1000 + turn, 0)
            .unwrap();
    }
    assert_eq!(
        c.cancel_duel("bob".to_string(), id, 1000 + 10 * DAY),
        Err(DuelError::DuelComplete)
    );
}
