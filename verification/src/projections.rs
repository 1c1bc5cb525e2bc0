//! Read-only listing and ranking projections over the duel collection.
use vstd::prelude::*;
use crate::contract::{DuelManagerContract, FigureData};
use crate::figures::{all_figures, figure_order, spec_stats, HistoricalFigure};
use crate::storage::{Duel, DuelView};

verus! {

/// The catalog row for one persona.
pub open spec fn spec_figure_data(f: HistoricalFigure) -> FigureData {
    let st = spec_stats(f);
    FigureData {
        name: f,
        wit: st.wit,
        brutality: st.brutality,
        strategy: st.strategy,
        mockery: st.mockery,
    }
}

/// A duel nobody has accepted yet.
pub open spec fn is_pending(d: DuelView) -> bool {
    d.player_b is None && d.winner is None
}

/// An accepted duel that has not settled.
pub open spec fn is_active(d: DuelView) -> bool {
    d.player_b is Some && d.winner is None
}

/// A settled duel.
pub open spec fn is_finished(d: DuelView) -> bool {
    d.winner is Some
}

/// Which status a listing selects.
#[derive(Copy, Clone, PartialEq, Eq, Structural)]
pub enum StatusFilter {
    Pending,
    Active,
    Finished,
}

pub open spec fn status_matches(mode: StatusFilter, d: DuelView) -> bool {
    match mode {
        StatusFilter::Pending => is_pending(d),
        StatusFilter::Active => is_active(d),
        StatusFilter::Finished => is_finished(d),
    }
}

/// How many duels from index `i` on match the status.
pub open spec fn count_status(s: Seq<Duel>, mode: StatusFilter, i: int) -> int
    decreases s.len() - i,
{
    if i < 0 || i >= s.len() {
        0
    } else {
        (if status_matches(mode, s[i]@) {
            1int
        } else {
            0int
        }) + count_status(s, mode, i + 1)
    }
}

/// Newest first by creation time.
pub open spec fn sorted_desc(s: Seq<Duel>) -> bool {
    forall|i: int, j: int|
        0 <= i < j < s.len() ==> (#[trigger] s[i])@.creation_time >= (#[trigger] s[j])@.creation_time
}

/// Every listed duel is one of the registry's.
pub open spec fn all_from(s: Seq<Duel>, registry: Seq<Duel>) -> bool {
    forall|i: int|
        0 <= i < s.len() ==> exists|j: int|
            0 <= j < registry.len() && (#[trigger] s[i])@ == (#[trigger] registry[j])@
}

/// The page length a listing returns: `count` items starting at `offset`
/// into a selection of `matching` items.
pub open spec fn page_len(matching: int, count: int, offset: int) -> int {
    if offset >= matching {
        0
    } else if matching - offset < count {
        matching - offset
    } else {
        count
    }
}

proof fn lemma_count_status_nonneg(s: Seq<Duel>, mode: StatusFilter, i: int)
    ensures
        count_status(s, mode, i) >= 0,
    decreases s.len() - i,
{
    if 0 <= i && i < s.len() {
        lemma_count_status_nonneg(s, mode, i + 1);
    }
}

impl DuelManagerContract {
    /// Every selectable persona together with its attributes, in catalog
    /// order.
    pub fn get_figures() -> (r: Vec<FigureData>)
        ensures
            r@.len() == figure_order().len(),
            forall|i: int|
                0 <= i < r@.len() ==> r@[i] == spec_figure_data(#[trigger] figure_order()[i]),
    {
        let figures = all_figures();
        let mut r: Vec<FigureData> = Vec::new();
        let mut i: usize = 0;
        while i < figures.len()
            invariant
                figures@ == figure_order(),
                0 <= i <= figures@.len(),
                r@.len() == i,
                forall|k: int|
                    0 <= k < i ==> r@[k] == spec_figure_data(#[trigger] figure_order()[k]),
            decreases figures@.len() - i,
        {
            let f = figures[i];
            let st = f.stats();
            r.push(
                FigureData {
                    name: f,
                    wit: st.wit,
                    brutality: st.brutality,
                    strategy: st.strategy,
                    mockery: st.mockery,
                },
            );
            i = i + 1;
        }
        r
    }

    /// The duel with this identifier, when one exists.
    pub fn get_duel(&self, duel_id: u128) -> (r: Option<Duel>)
        requires
            self.wf(),
        ensures
            r is Some <==> exists|j: int|
                0 <= j < self.duels@.len() && (#[trigger] self.duels@[j]).id == duel_id,
            r matches Some(d) ==> d.id == duel_id && forall|j: int|
                0 <= j < self.duels@.len() && (#[trigger] self.duels@[j]).id == duel_id ==> d@
                    == self.duels@[j]@,
    {
        match self.find_duel(duel_id) {
            Some(i) => {
                let d = self.duels[i].clone();
                proof {
                    assert forall|j: int|
                        0 <= j < self.duels@.len() && (#[trigger] self.duels@[j]).id == duel_id
                        implies d@ == self.duels@[j]@ by {
                        if j != i as int {
                            assert(self.duels@[j].id != self.duels@[i as int].id);
                        }
                    }
                }
                Some(d)
            },
            None => None,
        }
    }

    /// A page of the duels matching `mode`, newest first.
    fn page_of_status(&self, mode: StatusFilter, count: usize, offset: usize) -> (r: Vec<Duel>)
        ensures
            sorted_desc(r@),
            all_from(r@, self.duels@),
            forall|i: int| 0 <= i < r@.len() ==> status_matches(mode, (#[trigger] r@[i])@),
            r@.len() == page_len(
                count_status(self.duels@, mode, 0),
                count as int,
                offset as int,
            ),
    {
        let ghost s = self.duels@;
        let mut matched: Vec<Duel> = Vec::new();
        let mut i: usize = 0;
        while i < self.duels.len()
            invariant
                s == self.duels@,
                0 <= i <= s.len(),
                matched@.len() + count_status(s, mode, i as int) == count_status(s, mode, 0),
                all_from(matched@, s),
                forall|k: int| 0 <= k < matched@.len() ==> status_matches(mode, (#[trigger] matched@[k])@),
            decreases s.len() - i,
        {
            let d = &self.duels[i];
            let keep = match mode {
                StatusFilter::Pending => d.player_b.is_none() && d.winner.is_none(),
                StatusFilter::Active => d.player_b.is_some() && d.winner.is_none(),
                StatusFilter::Finished => d.winner.is_some(),
            };
            if keep {
                matched.push(d.clone());
            }
            i = i + 1;
        }
        let sorted = sort_duels_desc(matched);
        proof {
            lemma_count_status_nonneg(s, mode, 0);
        }
        page_duels(sorted, count, offset, Ghost(s))
    }

    /// Settled duels, newest first, `count` from `offset` on.
    pub fn get_finished_duels(&self, count: usize, offset: usize) -> (r: Vec<Duel>)
        ensures
            sorted_desc(r@),
            all_from(r@, self.duels@),
            forall|i: int| 0 <= i < r@.len() ==> is_finished((#[trigger] r@[i])@),
            r@.len() == page_len(
                count_status(self.duels@, StatusFilter::Finished, 0),
                count as int,
                offset as int,
            ),
    {
        self.page_of_status(StatusFilter::Finished, count, offset)
    }

    /// Accepted, unsettled duels, newest first, `count` from `offset` on.
    pub fn get_active_duels(&self, count: usize, offset: usize) -> (r: Vec<Duel>)
        ensures
            sorted_desc(r@),
            all_from(r@, self.duels@),
            forall|i: int| 0 <= i < r@.len() ==> is_active((#[trigger] r@[i])@),
            r@.len() == page_len(
                count_status(self.duels@, StatusFilter::Active, 0),
                count as int,
                offset as int,
            ),
    {
        self.page_of_status(StatusFilter::Active, count, offset)
    }

    /// Unaccepted duels, newest first, `count` from `offset` on.
    pub fn get_pending_duels(&self, count: usize, offset: usize) -> (r: Vec<Duel>)
        ensures
            sorted_desc(r@),
            all_from(r@, self.duels@),
            forall|i: int| 0 <= i < r@.len() ==> is_pending((#[trigger] r@[i])@),
            r@.len() == page_len(
                count_status(self.duels@, StatusFilter::Pending, 0),
                count as int,
                offset as int,
            ),
    {
        self.page_of_status(StatusFilter::Pending, count, offset)
    }
}

/// Whether the duel involves the account as either player.
pub open spec fn involves(d: DuelView, account: Seq<char>) -> bool {
    d.player_a == account || (d.player_b is Some && d.player_b->0 == account)
}

/// How many duels from index `i` on involve the account.
pub open spec fn count_involving(s: Seq<Duel>, account: Seq<char>, i: int) -> int
    decreases s.len() - i,
{
    if i < 0 || i >= s.len() {
        0
    } else {
        (if involves(s[i]@, account) {
            1int
        } else {
            0int
        }) + count_involving(s, account, i + 1)
    }
}

/// Whether a settled duel is a recent decisive one as of `now`: a winning
/// player exists, all ten turns are taken, and the last turn is at most a
/// day old.
pub open spec fn is_top_candidate(d: DuelView, now: u64) -> bool {
    &&& (d.winner == Some(crate::storage::Winner::PlayerA) || d.winner == Some(
        crate::storage::Winner::PlayerB,
    ))
    &&& d.turns.len() == 10
    &&& now as int <= d.turns.last().creation_time + crate::contract::PENDING_CANCEL_WAIT
}

impl DuelManagerContract {
    /// Every duel the account participates in, newest first.
    pub fn get_account_duels(&self, account_id: String) -> (r: Vec<Duel>)
        ensures
            sorted_desc(r@),
            all_from(r@, self.duels@),
            forall|i: int| 0 <= i < r@.len() ==> involves((#[trigger] r@[i])@, account_id@),
            r@.len() == count_involving(self.duels@, account_id@, 0),
    {
        let ghost s = self.duels@;
        let mut matched: Vec<Duel> = Vec::new();
        let mut i: usize = 0;
        while i < self.duels.len()
            invariant
                s == self.duels@,
                0 <= i <= s.len(),
                matched@.len() + count_involving(s, account_id@, i as int) == count_involving(
                    s,
                    account_id@,
                    0,
                ),
                all_from(matched@, s),
                forall|k: int|
                    0 <= k < matched@.len() ==> involves((#[trigger] matched@[k])@, account_id@),
            decreases s.len() - i,
        {
            let d = &self.duels[i];
            let keep = if d.player_a == account_id {
                true
            } else {
                match &d.player_b {
                    Some(p) => *p == account_id,
                    None => false,
                }
            };
            if keep {
                matched.push(d.clone());
            }
            i = i + 1;
        }
        sort_duels_desc(matched)
    }

    /// The highest-stake duel among those decisively settled within the last
    /// day: the showcased match.
    pub fn get_top_duel(&self, now: u64) -> (r: Option<Duel>)
        ensures
            r is None <==> (forall|j: int|
                0 <= j < self.duels@.len() ==> !is_top_candidate((#[trigger] self.duels@[j])@, now)),
            r matches Some(d) ==> {
                &&& is_top_candidate(d@, now)
                &&& exists|j: int|
                    0 <= j < self.duels@.len() && d@ == (#[trigger] self.duels@[j])@
                &&& forall|j: int|
                    0 <= j < self.duels@.len() && is_top_candidate(
                        (#[trigger] self.duels@[j])@,
                        now,
                    ) ==> self.duels@[j]@.stake <= d@.stake
            },
    {
        let mut best: Option<usize> = None;
        let mut i: usize = 0;
        while i < self.duels.len()
            invariant
                0 <= i <= self.duels@.len(),
                best is None ==> forall|j: int|
                    0 <= j < i ==> !is_top_candidate((#[trigger] self.duels@[j])@, now),
                best matches Some(b) ==> {
                    &&& b < i
                    &&& is_top_candidate(self.duels@[b as int]@, now)
                    &&& forall|j: int|
                        0 <= j < i && is_top_candidate((#[trigger] self.duels@[j])@, now)
                            ==> self.duels@[j]@.stake <= self.duels@[b as int]@.stake
                },
            decreases self.duels@.len() - i,
        {
            let d = &self.duels[i];
            let decisive = match d.winner {
                Some(crate::storage::Winner::PlayerA) => true,
                Some(crate::storage::Winner::PlayerB) => true,
                _ => false,
            };
            let n = d.turns.len();
            let candidate = decisive && n == 10 && (now as u128) <= d.turns[n - 1].creation_time
                as u128 + crate::contract::PENDING_CANCEL_WAIT;
            if candidate {
                let replace = match best {
                    None => true,
                    Some(b) => self.duels[b].stake < d.stake,
                };
                if replace {
                    best = Some(i);
                }
            }
            i = i + 1;
        }
        match best {
            Some(b) => Some(self.duels[b].clone()),
            None => None,
        }
    }
}

/// A turn that still lacks its annotation, queued for the external
/// annotator: where it lives and what it showed.
#[derive(Copy, Clone, Debug, PartialEq, Eq, Structural)]
pub struct RoastIndex {
    pub duel_id: u128,
    pub turn: usize,
    pub current_figure: HistoricalFigure,
    pub next_figure: HistoricalFigure,
    pub damage: u8,
    pub style: crate::storage::RoastStyle,
}

/// The queue entry for turn `i` of a duel.
pub open spec fn spec_roast_index(d: DuelView, i: int) -> RoastIndex {
    RoastIndex {
        duel_id: d.id,
        turn: i as usize,
        current_figure: if i % 2 == 0 {
            d.figure_a
        } else {
            d.figure_b->0
        },
        next_figure: if i % 2 == 0 {
            d.figure_b->0
        } else {
            d.figure_a
        },
        damage: d.turns[i].damage,
        style: d.turns[i].style,
    }
}

/// The unannotated turns of one duel, from turn `i` on, in turn order.
pub open spec fn turn_queue(d: DuelView, i: int) -> Seq<RoastIndex>
    decreases d.turns.len() - i,
{
    if i < 0 || i >= d.turns.len() {
        Seq::empty()
    } else {
        (if d.turns[i].roast_cid is None {
            seq![spec_roast_index(d, i)]
        } else {
            Seq::empty()
        }) + turn_queue(d, i + 1)
    }
}

/// All unannotated turns of the duels from index `j` on, duel by duel.
pub open spec fn queue_of(s: Seq<Duel>, j: int) -> Seq<RoastIndex>
    decreases s.len() - j,
{
    if j < 0 || j >= s.len() {
        Seq::empty()
    } else {
        turn_queue(s[j]@, 0) + queue_of(s, j + 1)
    }
}

impl DuelManagerContract {
    /// Every turn still lacking an annotation, in registry order, turns in
    /// order within each duel.
    pub fn get_roast_queue(&self) -> (r: Vec<RoastIndex>)
        requires
            self.wf(),
        ensures
            r@ == queue_of(self.duels@, 0),
    {
        let ghost s = self.duels@;
        let mut r: Vec<RoastIndex> = Vec::new();
        let mut j: usize = 0;
        while j < self.duels.len()
            invariant
                self.wf(),
                s == self.duels@,
                0 <= j <= s.len(),
                r@ + queue_of(s, j as int) == queue_of(s, 0),
            decreases s.len() - j,
        {
            let d = &self.duels[j];
            let ghost dv = d@;
            let fig_b = match d.figure_b {
                Some(f) => f,
                // Unused for a pending duel, which has no turns to list.
                None => d.figure_a,
            };
            let mut i: usize = 0;
            proof {
                assert(r@ + (turn_queue(dv, 0) + queue_of(s, j + 1)) =~= (r@ + turn_queue(dv, 0))
                    + queue_of(s, j + 1));
            }
            while i < d.turns.len()
                invariant
                    self.wf(),
                    s == self.duels@,
                    j < s.len(),
                    d == &self.duels@[j as int],
                    dv == d@,
                    fig_b == (if dv.figure_b is Some {
                        dv.figure_b->0
                    } else {
                        dv.figure_a
                    }),
                    0 <= i <= dv.turns.len(),
                    (r@ + turn_queue(dv, i as int)) + queue_of(s, j + 1) == queue_of(s, 0),
                decreases dv.turns.len() - i,
            {
                if d.turns[i].roast_cid.is_none() {
                    proof {
                        assert(dv.player_b is Some) by {
                            assert(dv.wf());
                            assert(dv.turns.len() > 0);
                        }
                        assert((r@ + turn_queue(dv, i as int)) + queue_of(s, j + 1) == queue_of(
                            s,
                            0,
                        ));
                        assert((r@.push(spec_roast_index(dv, i as int)) + turn_queue(
                            dv,
                            i + 1 as int,
                        )) =~= r@ + turn_queue(dv, i as int));
                    }
                    let entry = RoastIndex {
                        duel_id: d.id,
                        turn: i,
                        current_figure: if i % 2 == 0 {
                            d.figure_a
                        } else {
                            fig_b
                        },
                        next_figure: if i % 2 == 0 {
                            fig_b
                        } else {
                            d.figure_a
                        },
                        damage: d.turns[i].damage,
                        style: d.turns[i].style,
                    };
                    r.push(entry);
                } else {
                    proof {
                        assert((r@ + turn_queue(dv, i + 1 as int)) =~= r@ + turn_queue(
                            dv,
                            i as int,
                        ));
                    }
                }
                i = i + 1;
            }
            proof {
                assert(turn_queue(dv, dv.turns.len() as int) =~= Seq::<RoastIndex>::empty());
                assert(r@ + turn_queue(dv, dv.turns.len() as int) =~= r@);
            }
            j = j + 1;
        }
        proof {
            assert(queue_of(s, s.len() as int) =~= Seq::<RoastIndex>::empty());
            assert(r@ + queue_of(s, s.len() as int) =~= r@);
        }
        r
    }
}

/// Insertion sort, newest first by creation time. The result holds views of
/// the input's elements, sorted.
fn sort_duels_desc(v: Vec<Duel>) -> (r: Vec<Duel>)
    ensures
        sorted_desc(r@),
        r@.len() == v@.len(),
        all_from(r@, v@),
{
    let mut r: Vec<Duel> = Vec::new();
    let mut i: usize = 0;
    while i < v.len()
        invariant
            0 <= i <= v@.len(),
            r@.len() == i,
            sorted_desc(r@),
            all_from(r@, v@),
        decreases v@.len() - i,
    {
        let d = v[i].clone();
        let mut pos: usize = 0;
        while pos < r.len() && r[pos].creation_time >= d.creation_time
            invariant
                0 <= pos <= r@.len(),
                forall|k: int| 0 <= k < pos ==> (#[trigger] r@[k])@.creation_time >= d@.creation_time,
            decreases r@.len() - pos,
        {
            pos = pos + 1;
        }
        proof {
            assert(pos < r@.len() ==> r@[pos as int]@.creation_time < d@.creation_time);
        }
        r.insert(pos, d);
        proof {
            assert forall|x: int, y: int| 0 <= x < y < r@.len() implies (
            #[trigger] r@[x])@.creation_time >= (#[trigger] r@[y])@.creation_time by {}
            assert(r@[pos as int]@ == v@[i as int]@);
        }
        i = i + 1;
    }
    r
}

/// The page `offset..offset + count` of a sorted selection.
fn page_duels(v: Vec<Duel>, count: usize, offset: usize, registry: Ghost<Seq<Duel>>) -> (r: Vec<
    Duel,
>)
    requires
        sorted_desc(v@),
        all_from(v@, registry@),
    ensures
        sorted_desc(r@),
        all_from(r@, registry@),
        forall|i: int| 0 <= i < r@.len() ==> r@[i]@ == v@[offset + i]@,
        r@.len() == page_len(v@.len() as int, count as int, offset as int),
{
    let mut r: Vec<Duel> = Vec::new();
    if offset >= v.len() {
        return r;
    }
    let end = if v.len() - offset < count {
        v.len()
    } else {
        offset + count
    };
    let mut k: usize = offset;
    while k < end
        invariant
            offset <= k <= end <= v@.len(),
            sorted_desc(v@),
            all_from(v@, registry@),
            all_from(r@, registry@),
            r@.len() == k - offset,
            forall|i: int| 0 <= i < r@.len() ==> (#[trigger] r@[i])@ == v@[offset + i]@,
        decreases end - k,
    {
        r.push(v[k].clone());
        k = k + 1;
    }
    r
}

} // verus!
