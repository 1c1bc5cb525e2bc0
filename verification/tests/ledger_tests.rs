use duel_manager::contract::{DuelError, DuelManagerContract, Msg};
use duel_manager::figures::HistoricalFigure;
use duel_manager::settlement::ExternalAction;
use duel_manager::storage::RoastStyle;
use duel_manager::MIN_STAKE;

fn setup() -> DuelManagerContract {
    DuelManagerContract::new("admin".to_string(), "ft".to_string())
}

fn fund(c: &mut DuelManagerContract, who: &str, amount: u128) {
    c.ft_on_transfer(who.to_string(), amount, None, 0).unwrap();
}

fn settled_duel(c: &mut DuelManagerContract) -> u128 {
    fund(c, "alice", MIN_STAKE);
    fund(c, "bob", MIN_STAKE);
    let id = c
        .create_duel("alice".to_string(), HistoricalFigure::MarkTwain, MIN_STAKE, 100)
        .unwrap();
    c.accept_duel("bob".to_string(), id, HistoricalFigure::GenghisKhan, 200)
        .unwrap();
    for turn in 0..10u64 {
        let (who, byte) = if turn % 2 == 0 { ("alice", 9u8) } else { ("bob", 1u8) };
        c.take_turn(who.to_string(), id, RoastStyle::Witty, 1000 + turn, byte)
            .unwrap();
    }
    id
}

#[test]
fn deposits_credit_the_sender() {
    let mut c = setup();
    fund(&mut c, "alice", 500);
    fund(&mut c, "alice", 200);
    fund(&mut c, "bob", 50);
    assert_eq!(c.get_balance("alice".to_string()), 700);
    assert_eq!(c.get_balance("bob".to_string()), 50);
    assert_eq!(c.get_balance("carol".to_string()), 0);
    assert_eq!(c.total_stake, 750);
}

#[test]
fn withdraw_debits_and_transfers() {
    let mut c = setup();
    fund(&mut c, "alice", 500);
    let act = c.withdraw("alice".to_string(), 200).unwrap();
    assert_eq!(act, ExternalAction::Transfer { recipient: "alice".to_string(), amount: 200 });
    assert_eq!(c.get_balance("alice".to_string()), 300);
    assert_eq!(c.total_stake, 300);
}

#[test]
fn withdraw_never_overdraws() {
    let mut c = setup();
    fund(&mut c, "alice", 100);
    assert_eq!(
        c.withdraw("alice".to_string(), 150),
        Err(DuelError::InsufficientBalance)
    );
    // The balance is untouched by the failed request and stays non-negative.
    assert_eq!(c.get_balance("alice".to_string()), 100);
    assert_eq!(
        c.withdraw("carol".to_string(), 1),
        Err(DuelError::InsufficientBalance)
    );
    assert_eq!(c.get_balance("carol".to_string()), 0);
}

#[test]
fn reconciliation_burns_exactly_the_surplus() {
    let mut c = setup();
    fund(&mut c, "alice", 500);
    assert_eq!(c.on_burn_excess(None), None);
    assert_eq!(c.on_burn_excess(Some(400)), None);
    assert_eq!(c.on_burn_excess(Some(500)), None);
    assert_eq!(
        c.on_burn_excess(Some(700)),
        Some(ExternalAction::Burn { amount: 200 })
    );
    // Once the surplus is burnt the external balance matches believed
    // custody, so running reconciliation again burns nothing.
    assert_eq!(c.on_burn_excess(Some(500)), None);
}

#[test]
fn deposit_with_create_intent_opens_a_duel() {
    let mut c = setup();
    c.ft_on_transfer(
        "alice".to_string(),
        MIN_STAKE,
        Some(Msg::CreateDuel { figure: HistoricalFigure::SunTzu }),
        42,
    )
    .unwrap();
    assert_eq!(c.get_balance("alice".to_string()), 0);
    let d = c.get_duel(0).unwrap();
    assert_eq!(d.player_a, "alice".to_string());
    assert_eq!(d.stake, MIN_STAKE);
    assert_eq!(d.creation_time, 42);
}

#[test]
fn deposit_with_bad_create_intent_is_rejected_whole() {
    let mut c = setup();
    assert_eq!(
        c.ft_on_transfer(
            "alice".to_string(),
            MIN_STAKE - 1,
            Some(Msg::CreateDuel { figure: HistoricalFigure::SunTzu }),
            42,
        ),
        Err(DuelError::BelowMinimumStake)
    );
    assert_eq!(c.get_balance("alice".to_string()), 0);
    assert_eq!(c.total_stake, 0);
    assert!(c.get_duel(0).is_none());
}

#[test]
fn deposit_with_accept_intent_joins_a_duel() {
    let mut c = setup();
    fund(&mut c, "alice", MIN_STAKE);
    let id = c
        .create_duel("alice".to_string(), HistoricalFigure::MarkTwain, MIN_STAKE, 0)
        .unwrap();
    c.ft_on_transfer(
        "bob".to_string(),
        MIN_STAKE,
        Some(Msg::AcceptDuel { duel_id: id, figure: HistoricalFigure::SunTzu }),
        77,
    )
    .unwrap();
    let d = c.get_duel(id).unwrap();
    assert_eq!(d.player_b, Some("bob".to_string()));
    assert_eq!(d.start_time, Some(77));
    assert_eq!(c.get_balance("bob".to_string()), 0);
}

#[test]
fn deposit_with_bad_accept_intent_is_rejected_whole() {
    let mut c = setup();
    fund(&mut c, "alice", MIN_STAKE);
    let id = c
        .create_duel("alice".to_string(), HistoricalFigure::MarkTwain, MIN_STAKE, 0)
        .unwrap();
    assert_eq!(
        c.ft_on_transfer(
            "bob".to_string(),
            MIN_STAKE,
            Some(Msg::AcceptDuel { duel_id: id + 1, figure: HistoricalFigure::SunTzu }),
            77,
        ),
        Err(DuelError::NotFound)
    );
    assert_eq!(
        c.ft_on_transfer(
            "bob".to_string(),
            MIN_STAKE,
            Some(Msg::AcceptDuel { duel_id: id, figure: HistoricalFigure::MarkTwain }),
            77,
        ),
        Err(DuelError::DuplicatePersona)
    );
    assert_eq!(c.get_balance("bob".to_string()), 0);
    assert_eq!(c.total_stake, MIN_STAKE);
}

#[test]
fn annotations_are_admin_only_and_write_once() {
    let mut c = setup();
    fund(&mut c, "alice", MIN_STAKE);
    fund(&mut c, "bob", MIN_STAKE);
    let id = c
        .create_duel("alice".to_string(), HistoricalFigure::MarkTwain, MIN_STAKE, 0)
        .unwrap();
    c.accept_duel("bob".to_string(), id, HistoricalFigure::SunTzu, 1).unwrap();
    c.take_turn("alice".to_string(), id, RoastStyle::Witty, 2, 0).unwrap();
    assert_eq!(
        c.set_roast("alice".to_string(), id, 0, "cid-1".to_string()),
        Err(DuelError::NotAdmin)
    );
    assert_eq!(
        c.set_roast("admin".to_string(), id, 3, "cid-1".to_string()),
        Err(DuelError::TurnNotTaken)
    );
    c.set_roast("admin".to_string(), id, 0, "cid-1".to_string()).unwrap();
    assert_eq!(
        c.set_roast("admin".to_string(), id, 0, "cid-2".to_string()),
        Err(DuelError::AlreadyAnnotated)
    );
    let d = c.get_duel(id).unwrap();
    assert_eq!(d.turns[0].roast_cid, Some("cid-1".to_string()));
}

#[test]
fn roast_queue_lists_unannotated_turns() {
    let mut c = setup();
    fund(&mut c, "alice", MIN_STAKE);
    fund(&mut c, "bob", MIN_STAKE);
    let id = c
        .create_duel("alice".to_string(), HistoricalFigure::MarkTwain, MIN_STAKE, 0)
        .unwrap();
    c.accept_duel("bob".to_string(), id, HistoricalFigure::GenghisKhan, 1)
        .unwrap();
    c.take_turn("alice".to_string(), id, RoastStyle::Witty, 2, 0).unwrap();
    c.take_turn("bob".to_string(), id, RoastStyle::Brutal, 3, 0).unwrap();
    let q = c.get_roast_queue();
    assert_eq!(q.len(), 2);
    assert_eq!(q[0].duel_id, id);
    assert_eq!(q[0].turn, 0);
    assert_eq!(q[0].current_figure, HistoricalFigure::MarkTwain);
    assert_eq!(q[0].next_figure, HistoricalFigure::GenghisKhan);
    assert_eq!(q[0].style, RoastStyle::Witty);
    assert_eq!(q[1].turn, 1);
    assert_eq!(q[1].current_figure, HistoricalFigure::GenghisKhan);
    assert_eq!(q[1].style, RoastStyle::Brutal);
    c.set_roast("admin".to_string(), id, 0, "cid".to_string()).unwrap();
    let q2 = c.get_roast_queue();
    assert_eq!(q2.len(), 1);
    assert_eq!(q2[0].turn, 1);
}

#[test]
fn listings_follow_duel_status() {
    let mut c = setup();
    fund(&mut c, "alice", 2 * MIN_STAKE);
    fund(&mut c, "bob", MIN_STAKE);
    let pending = c
        .create_duel("alice".to_string(), HistoricalFigure::Socrates, MIN_STAKE, 10)
        .unwrap();
    let active = c
        .create_duel("alice".to_string(), HistoricalFigure::MarkTwain, MIN_STAKE, 20)
        .unwrap();
    c.accept_duel("bob".to_string(), active, HistoricalFigure::SunTzu, 30)
        .unwrap();
    let p = c.get_pending_duels(10, 0);
    assert_eq!(p.len(), 1);
    assert_eq!(p[0].id, pending);
    let a = c.get_active_duels(10, 0);
    assert_eq!(a.len(), 1);
    assert_eq!(a[0].id, active);
    assert!(c.get_finished_duels(10, 0).is_empty());
    let mine = c.get_account_duels("alice".to_string());
    assert_eq!(mine.len(), 2);
    // Newest first.
    assert_eq!(mine[0].id, active);
    assert_eq!(mine[1].id, pending);
    assert_eq!(c.get_account_duels("bob".to_string()).len(), 1);
    assert!(c.get_account_duels("carol".to_string()).is_empty());
    // Paging.
    assert_eq!(c.get_pending_duels(10, 1).len(), 0);
    assert_eq!(c.get_pending_duels(0, 0).len(), 0);
}

#[test]
fn leaderboards_count_wins_and_damage() {
    let mut c = setup();
    let id = settled_duel(&mut c);
    let f = c.get_finished_duels(10, 0);
    assert_eq!(f.len(), 1);
    assert_eq!(f[0].id, id);
    let wins = c.get_leaderboard_by_wins(10, 0);
    assert_eq!(wins.len(), 1);
    assert_eq!(wins[0].account_id, "alice".to_string());
    assert_eq!(wins[0].value, 1);
    let damage = c.get_leaderboard_by_damage(10, 0);
    assert_eq!(damage.len(), 2);
    // Alice dealt 10 damage on each of her five turns, bob 2 on each of his.
    assert_eq!(damage[0].account_id, "alice".to_string());
    assert_eq!(damage[0].value, 50);
    assert_eq!(damage[1].account_id, "bob".to_string());
    assert_eq!(damage[1].value, 10);
}

#[test]
fn top_duel_is_the_recent_decisive_match_with_the_largest_stake() {
    let mut c = setup();
    let id = settled_duel(&mut c);
    // The last turn was at time 1009; a query the same day finds it.
    let top = c.get_top_duel(2000).unwrap();
    assert_eq!(top.id, id);
    // A day later it no longer qualifies.
    assert!(c.get_top_duel(1009 + 86_400_000_000_000 + 1).is_none());
}
