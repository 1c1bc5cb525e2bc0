//! Core data records: attack styles, turns, duels, and their well-formedness.
use vstd::prelude::*;

verus! {

/// One of four cyclic combat styles. Each style is strong against exactly
/// one other style and weak against exactly one other, forming a single
/// four-cycle: Witty beats Brutal beats Strategic beats Mocking beats Witty.
#[derive(Copy, Clone, Debug, PartialEq, Eq, Structural)]
pub enum RoastStyle {
    Witty,
    Brutal,
    Strategic,
    Mocking,
}

/// The outcome of a settled duel.
#[derive(Copy, Clone, Debug, PartialEq, Eq, Structural)]
pub enum Winner {
    PlayerA,
    PlayerB,
    Draw,
}

pub open spec fn spec_strong_against(a: RoastStyle, b: RoastStyle) -> bool {
    match (a, b) {
        (RoastStyle::Witty, RoastStyle::Brutal) => true,
        (RoastStyle::Brutal, RoastStyle::Strategic) => true,
        (RoastStyle::Strategic, RoastStyle::Mocking) => true,
        (RoastStyle::Mocking, RoastStyle::Witty) => true,
        _ => false,
    }
}

pub open spec fn spec_weak_against(a: RoastStyle, b: RoastStyle) -> bool {
    match (a, b) {
        (RoastStyle::Witty, RoastStyle::Mocking) => true,
        (RoastStyle::Brutal, RoastStyle::Witty) => true,
        (RoastStyle::Strategic, RoastStyle::Brutal) => true,
        (RoastStyle::Mocking, RoastStyle::Strategic) => true,
        _ => false,
    }
}

impl RoastStyle {
    /// Whether `self` has the advantage when the previous turn used `other`.
    pub fn is_strong_against(&self, other: RoastStyle) -> (r: bool)
        ensures
            r == spec_strong_against(*self, other),
    {
        match (self, other) {
            (RoastStyle::Witty, RoastStyle::Brutal) => true,
            (RoastStyle::Brutal, RoastStyle::Strategic) => true,
            (RoastStyle::Strategic, RoastStyle::Mocking) => true,
            (RoastStyle::Mocking, RoastStyle::Witty) => true,
            _ => false,
        }
    }

    /// Whether `self` is at a disadvantage when the previous turn used `other`.
    pub fn is_weak_against(&self, other: RoastStyle) -> (r: bool)
        ensures
            r == spec_weak_against(*self, other),
    {
        match (self, other) {
            (RoastStyle::Witty, RoastStyle::Mocking) => true,
            (RoastStyle::Brutal, RoastStyle::Witty) => true,
            (RoastStyle::Strategic, RoastStyle::Brutal) => true,
            (RoastStyle::Mocking, RoastStyle::Strategic) => true,
            _ => false,
        }
    }
}

/// The style that `a` is strong against.
pub open spec fn strong_target(a: RoastStyle) -> RoastStyle {
    match a {
        RoastStyle::Witty => RoastStyle::Brutal,
        RoastStyle::Brutal => RoastStyle::Strategic,
        RoastStyle::Strategic => RoastStyle::Mocking,
        RoastStyle::Mocking => RoastStyle::Witty,
    }
}

/// The strong/weak relations form a single four-cycle: in each direction a
/// pair of styles is strong, weak, or neither, never two of these at once;
/// every style is strong against exactly one style (its `strong_target`) and
/// weak against exactly one; and strength one way is exactly weakness the
/// other way.
pub proof fn lemma_style_cycle()
    ensures
        forall|a: RoastStyle, b: RoastStyle|
            !(spec_strong_against(a, b) && spec_weak_against(a, b)),
        forall|a: RoastStyle| !spec_strong_against(a, a) && !spec_weak_against(a, a),
        forall|a: RoastStyle, b: RoastStyle|
            spec_strong_against(a, b) == spec_weak_against(b, a),
        forall|a: RoastStyle, b: RoastStyle|
            spec_strong_against(a, b) <==> b == strong_target(a),
        forall|a: RoastStyle, b: RoastStyle|
            spec_weak_against(a, b) <==> a == strong_target(b),
{
}

/// One attack in a duel. Turns alternate ownership by index parity: an even
/// index is player A's turn, an odd index player B's.
#[derive(Debug, PartialEq, Eq)]
pub struct Turn {
    /// Timestamp (nanoseconds) at which the turn was taken.
    pub creation_time: u64,
    /// Damage dealt, always in `1..=15`.
    pub damage: u8,
    /// The attack style the player chose.
    pub style: RoastStyle,
    /// Opaque annotation reference, attached later by the privileged
    /// annotator; never produced when the turn is taken.
    pub roast_cid: Option<String>,
}

impl Turn {
    /// Damage stays in the range the resolver can produce.
    pub open spec fn wf(self) -> bool {
        1 <= self.damage <= 15
    }
}

impl Clone for Turn {
    fn clone(&self) -> (res: Self)
        ensures
            res == *self,
    {
        let roast_cid = match &self.roast_cid {
            Some(cid) => Some(cid.clone()),
            None => None,
        };
        Turn { creation_time: self.creation_time, damage: self.damage, style: self.style, roast_cid }
    }
}

/// One match instance between two players with locked stakes and an
/// alternating turn sequence.
///
/// Lifecycle: created pending (no player B, no turns); accepting sets
/// `player_b`, `figure_b` and `start_time`; turns are appended until the
/// tenth, which always sets `winner`; cancellation removes the record
/// instead of marking it.
#[derive(Debug, PartialEq, Eq)]
pub struct Duel {
    /// Monotonically assigned identifier, never reused.
    pub id: u128,
    /// Timestamp (nanoseconds) of creation.
    pub creation_time: u64,
    /// Timestamp of acceptance; present exactly when player B is.
    pub start_time: Option<u64>,
    /// Amount each side locked; fixed at creation, identical for both sides.
    pub stake: u128,
    /// The account that created the duel.
    pub player_a: String,
    /// Player A's chosen persona.
    pub figure_a: crate::figures::HistoricalFigure,
    /// The account that accepted the duel, absent while pending.
    pub player_b: Option<String>,
    /// Player B's chosen persona, present exactly when player B is.
    pub figure_b: Option<crate::figures::HistoricalFigure>,
    /// Append-only turn sequence, length `0..=10`.
    pub turns: Vec<Turn>,
    /// Set exactly once, when the tenth turn is taken.
    pub winner: Option<Winner>,
}

/// The mathematical value of a [`Duel`]: account identifiers as character
/// sequences and the turn list as a sequence.
#[verifier::ext_equal]
pub ghost struct DuelView {
    pub id: u128,
    pub creation_time: u64,
    pub start_time: Option<u64>,
    pub stake: u128,
    pub player_a: Seq<char>,
    pub figure_a: crate::figures::HistoricalFigure,
    pub player_b: Option<Seq<char>>,
    pub figure_b: Option<crate::figures::HistoricalFigure>,
    pub turns: Seq<Turn>,
    pub winner: Option<Winner>,
}

impl DuelView {
    /// Structural invariant every stored duel satisfies: a pending duel has
    /// no turns and no winner; the winner is set exactly when the tenth turn
    /// has been taken; the two sides differ in account and persona; the
    /// stake meets the minimum; each turn's damage is in resolver range.
    pub open spec fn wf(self) -> bool {
        &&& self.turns.len() <= 10
        &&& (self.winner is Some <==> self.turns.len() == 10)
        &&& (self.player_b is None ==> self.turns.len() == 0)
        &&& (self.player_b is Some <==> self.figure_b is Some)
        &&& (self.player_b is Some <==> self.start_time is Some)
        &&& (self.player_b is Some ==> self.player_b->0 != self.player_a)
        &&& (self.figure_b is Some ==> self.figure_b->0 != self.figure_a)
        &&& self.stake >= crate::MIN_STAKE
        &&& forall|i: int| 0 <= i < self.turns.len() ==> (#[trigger] self.turns[i]).wf()
    }
}

impl View for Duel {
    type V = DuelView;

    open spec fn view(&self) -> DuelView {
        DuelView {
            id: self.id,
            creation_time: self.creation_time,
            start_time: self.start_time,
            stake: self.stake,
            player_a: self.player_a@,
            figure_a: self.figure_a,
            player_b: match self.player_b {
                Some(p) => Some(p@),
                None => None,
            },
            figure_b: self.figure_b,
            turns: self.turns@,
            winner: self.winner,
        }
    }
}

impl Duel {
    /// A duel is settled exactly when its winner is set, which the invariant
    /// ties to the full count of ten turns taken along the turn path.
    pub proof fn lemma_turns_complete_iff_winner(self)
        requires
            self@.wf(),
        ensures
            self@.turns.len() == 10 <==> self@.winner is Some,
    {
    }
}

impl Clone for Duel {
    fn clone(&self) -> (res: Self)
        ensures
            res@ == self@,
    {
        let player_b = match &self.player_b {
            Some(p) => Some(p.clone()),
            None => None,
        };
        let mut turns: Vec<Turn> = Vec::new();
        let mut i: usize = 0;
        while i < self.turns.len()
            invariant
                i <= self.turns@.len(),
                turns@ == self.turns@.subrange(0, i as int),
            decreases self.turns@.len() - i,
        {
            turns.push(self.turns[i].clone());
            proof {
                assert(turns@ =~= self.turns@.subrange(0, i + 1 as int));
            }
            i = i + 1;
        }
        proof {
            assert(turns@ =~= self.turns@);
        }
        let res = Duel {
            id: self.id,
            creation_time: self.creation_time,
            start_time: self.start_time,
            stake: self.stake,
            player_a: self.player_a.clone(),
            figure_a: self.figure_a,
            player_b,
            figure_b: self.figure_b,
            turns,
            winner: self.winner,
        };
        proof {
            assert(res@ =~= self@);
        }
        res
    }
}

} // verus!
