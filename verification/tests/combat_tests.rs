use duel_manager::combat::resolve;
use duel_manager::contract::DuelManagerContract;
use duel_manager::figures::HistoricalFigure;
use duel_manager::storage::RoastStyle;

const STYLES: [RoastStyle; 4] = [
    RoastStyle::Witty,
    RoastStyle::Brutal,
    RoastStyle::Strategic,
    RoastStyle::Mocking,
];

#[test]
fn style_relations_form_a_single_cycle() {
    for &a in STYLES.iter() {
        assert!(!a.is_strong_against(a));
        assert!(!a.is_weak_against(a));
        let mut strong = 0;
        let mut weak = 0;
        for &b in STYLES.iter() {
            let s = a.is_strong_against(b);
            let w = a.is_weak_against(b);
            assert!(!(s && w));
            assert_eq!(s, b.is_weak_against(a));
            if s {
                strong += 1;
            }
            if w {
                weak += 1;
            }
        }
        assert_eq!(strong, 1);
        assert_eq!(weak, 1);
    }
    assert!(RoastStyle::Witty.is_strong_against(RoastStyle::Brutal));
    assert!(RoastStyle::Brutal.is_strong_against(RoastStyle::Strategic));
    assert!(RoastStyle::Strategic.is_strong_against(RoastStyle::Mocking));
    assert!(RoastStyle::Mocking.is_strong_against(RoastStyle::Witty));
}

#[test]
fn resolve_damage_always_in_range() {
    let figures = [
        HistoricalFigure::MarkTwain,
        HistoricalFigure::GenghisKhan,
        HistoricalFigure::JuliusCaesar,
        HistoricalFigure::AttilaTheHun,
    ];
    for &f in figures.iter() {
        let stats = f.stats();
        for &style in STYLES.iter() {
            let mut prevs = vec![None];
            for &p in STYLES.iter() {
                prevs.push(Some(p));
            }
            for prev in prevs {
                for byte in 0..=255u8 {
                    let d = resolve(&stats, style, prev, byte);
                    assert!(d >= 1 && d <= 15);
                }
            }
        }
    }
}

#[test]
fn resolve_is_reproducible() {
    let stats = HistoricalFigure::NapoleonBonaparte.stats();
    for byte in 0..=255u8 {
        let a = resolve(&stats, RoastStyle::Strategic, Some(RoastStyle::Mocking), byte);
        let b = resolve(&stats, RoastStyle::Strategic, Some(RoastStyle::Mocking), byte);
        assert_eq!(a, b);
    }
}

#[test]
fn resolve_first_turn_zero_byte_deals_one() {
    // Attribute 10 for the chosen style, no prior turn, random byte 0:
    // damage is (0 mod 10) + 1 = 1.
    let stats = HistoricalFigure::MarkTwain.stats();
    assert_eq!(stats.wit, 10);
    assert_eq!(resolve(&stats, RoastStyle::Witty, None, 0), 1);
}

#[test]
fn resolve_strong_bonus_raises_the_cap() {
    // Attribute 9, previous turn Brutal, Witty is strong against Brutal:
    // cap = 9 + 5 = 14, damage = (14 mod 14) + 1 = 1.
    let stats = HistoricalFigure::WilliamShakespeare.stats();
    assert_eq!(stats.wit, 9);
    assert_eq!(resolve(&stats, RoastStyle::Witty, Some(RoastStyle::Brutal), 14), 1);
    // One byte lower stays under the cap: (13 mod 14) + 1 = 14.
    assert_eq!(resolve(&stats, RoastStyle::Witty, Some(RoastStyle::Brutal), 13), 14);
}

#[test]
fn resolve_weak_penalty_floors_at_one() {
    // Witty is weak against Mocking: roll 4 drops to the floor of 1.
    let stats = HistoricalFigure::MarkTwain.stats();
    // (3 mod 10) + 1 = 4 -> max(4 - 5, 1) = 1.
    assert_eq!(resolve(&stats, RoastStyle::Witty, Some(RoastStyle::Mocking), 3), 1);
    // (8 mod 10) + 1 = 9 -> 9 - 5 = 4.
    assert_eq!(resolve(&stats, RoastStyle::Witty, Some(RoastStyle::Mocking), 8), 4);
}

#[test]
fn figure_catalog_lists_all_personas() {
    let figures = DuelManagerContract::get_figures();
    assert_eq!(figures.len(), 30);
    assert_eq!(figures[0].name, HistoricalFigure::JuliusCaesar);
    assert_eq!(figures[0].wit, 5);
    assert_eq!(figures[0].brutality, 6);
    assert_eq!(figures[0].strategy, 6);
    assert_eq!(figures[0].mockery, 3);
    let twain = &figures[4];
    assert_eq!(twain.name, HistoricalFigure::MarkTwain);
    assert_eq!(twain.wit, 10);
    assert_eq!(twain.brutality, 1);
    for f in figures.iter() {
        for v in [f.wit, f.brutality, f.strategy, f.mockery] {
            assert!(v >= 1 && v <= 10);
        }
    }
}
