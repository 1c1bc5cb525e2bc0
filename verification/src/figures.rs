//! The catalog of selectable combat personas and their fixed attack
//! attributes: one attribute per attack style, each in `1..=10`.
use vstd::prelude::*;
use crate::storage::RoastStyle;

verus! {

/// A selectable combat identity with four fixed attack-power attributes.
#[derive(Copy, Clone, Debug, PartialEq, Eq, Hash, Structural)]
pub enum HistoricalFigure {
    JuliusCaesar,
    WilliamShakespeare,
    GenghisKhan,
    NapoleonBonaparte,
    MarkTwain,
    SunTzu,
    Socrates,
    WinstonChurchill,
    MarieAntoinette,
    LeonardoDaVinci,
    OscarWilde,
    AttilaTheHun,
    TheodoreRoosevelt,
    BenjaminFranklin,
    HannibalBarca,
    Confucius,
    VladTheImpaler,
    NiccoloMachiavelli,
    KarlMarx,
    FriedrichNietzsche,
    JoanOfArc,
    AndrewJackson,
    OttoVonBismarck,
    SalvadorDali,
    HarrietTubman,
    NelsonMandela,
    JohnFKennedy,
    MartinLutherKingJr,
    MalcolmX,
    FrederickDouglass,
}

/// A persona's four attack-power attributes, one per attack style.
#[derive(Copy, Clone, Debug, PartialEq, Eq, Structural)]
pub struct Stats {
    pub wit: u8,
    pub brutality: u8,
    pub strategy: u8,
    pub mockery: u8,
}

impl Stats {
    /// Every attribute lies in the bounded range the resolver assumes.
    pub open spec fn wf(self) -> bool {
        &&& 1 <= self.wit <= 10
        &&& 1 <= self.brutality <= 10
        &&& 1 <= self.strategy <= 10
        &&& 1 <= self.mockery <= 10
    }

    /// The attribute that powers the given attack style.
    pub open spec fn spec_stat_for(self, style: RoastStyle) -> u8 {
        match style {
            RoastStyle::Witty => self.wit,
            RoastStyle::Brutal => self.brutality,
            RoastStyle::Strategic => self.strategy,
            RoastStyle::Mocking => self.mockery,
        }
    }

    /// Executable counterpart of [`Stats::spec_stat_for`].
    pub fn stat_for(&self, style: RoastStyle) -> (r: u8)
        ensures
            r == self.spec_stat_for(style),
    {
        match style {
            RoastStyle::Witty => self.wit,
            RoastStyle::Brutal => self.brutality,
            RoastStyle::Strategic => self.strategy,
            RoastStyle::Mocking => self.mockery,
        }
    }
}

/// The fixed attribute table, one row per persona.
pub open spec fn spec_stats(figure: HistoricalFigure) -> Stats {
    match figure {
        HistoricalFigure::JuliusCaesar => Stats { wit: 5, brutality: 6, strategy: 6, mockery: 3 },
        HistoricalFigure::WilliamShakespeare => Stats { wit: 9, brutality: 2, strategy: 5, mockery: 4 },
        HistoricalFigure::GenghisKhan => Stats { wit: 2, brutality: 10, strategy: 6, mockery: 2 },
        HistoricalFigure::NapoleonBonaparte => Stats { wit: 4, brutality: 4, strategy: 9, mockery: 3 },
        HistoricalFigure::MarkTwain => Stats { wit: 10, brutality: 1, strategy: 4, mockery: 5 },
        HistoricalFigure::SunTzu => Stats { wit: 5, brutality: 2, strategy: 10, mockery: 3 },
        HistoricalFigure::Socrates => Stats { wit: 8, brutality: 1, strategy: 6, mockery: 5 },
        HistoricalFigure::WinstonChurchill => Stats { wit: 6, brutality: 3, strategy: 5, mockery: 6 },
        HistoricalFigure::MarieAntoinette => Stats { wit: 3, brutality: 4, strategy: 4, mockery: 9 },
        HistoricalFigure::LeonardoDaVinci => Stats { wit: 6, brutality: 2, strategy: 9, mockery: 3 },
        HistoricalFigure::OscarWilde => Stats { wit: 9, brutality: 1, strategy: 5, mockery: 5 },
        HistoricalFigure::AttilaTheHun => Stats { wit: 1, brutality: 10, strategy: 5, mockery: 4 },
        HistoricalFigure::TheodoreRoosevelt => Stats { wit: 4, brutality: 8, strategy: 5, mockery: 3 },
        HistoricalFigure::BenjaminFranklin => Stats { wit: 7, brutality: 2, strategy: 7, mockery: 4 },
        HistoricalFigure::HannibalBarca => Stats { wit: 3, brutality: 5, strategy: 10, mockery: 2 },
        HistoricalFigure::Confucius => Stats { wit: 9, brutality: 1, strategy: 6, mockery: 4 },
        HistoricalFigure::VladTheImpaler => Stats { wit: 2, brutality: 9, strategy: 5, mockery: 4 },
        HistoricalFigure::NiccoloMachiavelli => Stats { wit: 5, brutality: 2, strategy: 9, mockery: 4 },
        HistoricalFigure::KarlMarx => Stats { wit: 6, brutality: 3, strategy: 6, mockery: 5 },
        HistoricalFigure::FriedrichNietzsche => Stats { wit: 5, brutality: 4, strategy: 5, mockery: 6 },
        HistoricalFigure::JoanOfArc => Stats { wit: 4, brutality: 7, strategy: 5, mockery: 4 },
        HistoricalFigure::AndrewJackson => Stats { wit: 3, brutality: 9, strategy: 4, mockery: 4 },
        HistoricalFigure::OttoVonBismarck => Stats { wit: 4, brutality: 5, strategy: 8, mockery: 3 },
        HistoricalFigure::SalvadorDali => Stats { wit: 7, brutality: 2, strategy: 4, mockery: 7 },
        HistoricalFigure::HarrietTubman => Stats { wit: 4, brutality: 6, strategy: 7, mockery: 3 },
        HistoricalFigure::NelsonMandela => Stats { wit: 6, brutality: 3, strategy: 7, mockery: 4 },
        HistoricalFigure::JohnFKennedy => Stats { wit: 6, brutality: 4, strategy: 6, mockery: 4 },
        HistoricalFigure::MartinLutherKingJr => Stats { wit: 8, brutality: 2, strategy: 6, mockery: 4 },
        HistoricalFigure::MalcolmX => Stats { wit: 7, brutality: 4, strategy: 5, mockery: 4 },
        HistoricalFigure::FrederickDouglass => Stats { wit: 7, brutality: 3, strategy: 6, mockery: 4 },
    }
}

impl HistoricalFigure {
    /// The persona's fixed attributes; a pure lookup in the table.
    pub fn stats(self) -> (r: Stats)
        ensures
            r == spec_stats(self),
            r.wf(),
    {
        match self {
            Self::JuliusCaesar => Stats { wit: 5, brutality: 6, strategy: 6, mockery: 3 },
            Self::WilliamShakespeare => Stats { wit: 9, brutality: 2, strategy: 5, mockery: 4 },
            Self::GenghisKhan => Stats { wit: 2, brutality: 10, strategy: 6, mockery: 2 },
            Self::NapoleonBonaparte => Stats { wit: 4, brutality: 4, strategy: 9, mockery: 3 },
            Self::MarkTwain => Stats { wit: 10, brutality: 1, strategy: 4, mockery: 5 },
            Self::SunTzu => Stats { wit: 5, brutality: 2, strategy: 10, mockery: 3 },
            Self::Socrates => Stats { wit: 8, brutality: 1, strategy: 6, mockery: 5 },
            Self::WinstonChurchill => Stats { wit: 6, brutality: 3, strategy: 5, mockery: 6 },
            Self::MarieAntoinette => Stats { wit: 3, brutality: 4, strategy: 4, mockery: 9 },
            Self::LeonardoDaVinci => Stats { wit: 6, brutality: 2, strategy: 9, mockery: 3 },
            Self::OscarWilde => Stats { wit: 9, brutality: 1, strategy: 5, mockery: 5 },
            Self::AttilaTheHun => Stats { wit: 1, brutality: 10, strategy: 5, mockery: 4 },
            Self::TheodoreRoosevelt => Stats { wit: 4, brutality: 8, strategy: 5, mockery: 3 },
            Self::BenjaminFranklin => Stats { wit: 7, brutality: 2, strategy: 7, mockery: 4 },
            Self::HannibalBarca => Stats { wit: 3, brutality: 5, strategy: 10, mockery: 2 },
            Self::Confucius => Stats { wit: 9, brutality: 1, strategy: 6, mockery: 4 },
            Self::VladTheImpaler => Stats { wit: 2, brutality: 9, strategy: 5, mockery: 4 },
            Self::NiccoloMachiavelli => Stats { wit: 5, brutality: 2, strategy: 9, mockery: 4 },
            Self::KarlMarx => Stats { wit: 6, brutality: 3, strategy: 6, mockery: 5 },
            Self::FriedrichNietzsche => Stats { wit: 5, brutality: 4, strategy: 5, mockery: 6 },
            Self::JoanOfArc => Stats { wit: 4, brutality: 7, strategy: 5, mockery: 4 },
            Self::AndrewJackson => Stats { wit: 3, brutality: 9, strategy: 4, mockery: 4 },
            Self::OttoVonBismarck => Stats { wit: 4, brutality: 5, strategy: 8, mockery: 3 },
            Self::SalvadorDali => Stats { wit: 7, brutality: 2, strategy: 4, mockery: 7 },
            Self::HarrietTubman => Stats { wit: 4, brutality: 6, strategy: 7, mockery: 3 },
            Self::NelsonMandela => Stats { wit: 6, brutality: 3, strategy: 7, mockery: 4 },
            Self::JohnFKennedy => Stats { wit: 6, brutality: 4, strategy: 6, mockery: 4 },
            Self::MartinLutherKingJr => Stats { wit: 8, brutality: 2, strategy: 6, mockery: 4 },
            Self::MalcolmX => Stats { wit: 7, brutality: 4, strategy: 5, mockery: 4 },
            Self::FrederickDouglass => Stats { wit: 7, brutality: 3, strategy: 6, mockery: 4 },
        }
    }
}

/// The catalog order in which personas are listed.
pub open spec fn figure_order() -> Seq<HistoricalFigure> {
    seq![
        HistoricalFigure::JuliusCaesar,
        HistoricalFigure::WilliamShakespeare,
        HistoricalFigure::GenghisKhan,
        HistoricalFigure::NapoleonBonaparte,
        HistoricalFigure::MarkTwain,
        HistoricalFigure::SunTzu,
        HistoricalFigure::Socrates,
        HistoricalFigure::WinstonChurchill,
        HistoricalFigure::MarieAntoinette,
        HistoricalFigure::LeonardoDaVinci,
        HistoricalFigure::OscarWilde,
        HistoricalFigure::AttilaTheHun,
        HistoricalFigure::TheodoreRoosevelt,
        HistoricalFigure::BenjaminFranklin,
        HistoricalFigure::HannibalBarca,
        HistoricalFigure::Confucius,
        HistoricalFigure::VladTheImpaler,
        HistoricalFigure::NiccoloMachiavelli,
        HistoricalFigure::KarlMarx,
        HistoricalFigure::FriedrichNietzsche,
        HistoricalFigure::JoanOfArc,
        HistoricalFigure::AndrewJackson,
        HistoricalFigure::OttoVonBismarck,
        HistoricalFigure::SalvadorDali,
        HistoricalFigure::HarrietTubman,
        HistoricalFigure::NelsonMandela,
        HistoricalFigure::JohnFKennedy,
        HistoricalFigure::MartinLutherKingJr,
        HistoricalFigure::MalcolmX,
        HistoricalFigure::FrederickDouglass,
    ]
}

/// All personas, in catalog order.
pub fn all_figures() -> (r: Vec<HistoricalFigure>)
    ensures
        r@ == figure_order(),
{
    let r = vec![
        HistoricalFigure::JuliusCaesar,
        HistoricalFigure::WilliamShakespeare,
        HistoricalFigure::GenghisKhan,
        HistoricalFigure::NapoleonBonaparte,
        HistoricalFigure::MarkTwain,
        HistoricalFigure::SunTzu,
        HistoricalFigure::Socrates,
        HistoricalFigure::WinstonChurchill,
        HistoricalFigure::MarieAntoinette,
        HistoricalFigure::LeonardoDaVinci,
        HistoricalFigure::OscarWilde,
        HistoricalFigure::AttilaTheHun,
        HistoricalFigure::TheodoreRoosevelt,
        HistoricalFigure::BenjaminFranklin,
        HistoricalFigure::HannibalBarca,
        HistoricalFigure::Confucius,
        HistoricalFigure::VladTheImpaler,
        HistoricalFigure::NiccoloMachiavelli,
        HistoricalFigure::KarlMarx,
        HistoricalFigure::FriedrichNietzsche,
        HistoricalFigure::JoanOfArc,
        HistoricalFigure::AndrewJackson,
        HistoricalFigure::OttoVonBismarck,
        HistoricalFigure::SalvadorDali,
        HistoricalFigure::HarrietTubman,
        HistoricalFigure::NelsonMandela,
        HistoricalFigure::JohnFKennedy,
        HistoricalFigure::MartinLutherKingJr,
        HistoricalFigure::MalcolmX,
        HistoricalFigure::FrederickDouglass,
    ];
    proof {
        assert(r@ =~= figure_order());
    }
    r
}

} // verus!
