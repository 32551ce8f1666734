use vstd::prelude::*;
use crate::config::{SampleError, SamplingConfig, direct_preferred, direct_rule};
use crate::skips::{sum_of, position_of, lemma_sum_push, lemma_positions_ordered, lemma_zero_sum};

verus! {

/// The step a sampling run has reached.
///
/// The rejection method goes through `SelectMethod`, `ProposeCandidate`,
/// `FastAccept` and `SlowAccept` for each selection; direct inversion counts
/// skipped items in `Direct`; every run ends with one `FinalDraw` for its
/// last selection, and then stands at `Done`.
#[derive(Debug, Clone, Copy, PartialEq, Eq, Structural)]
pub enum Phase {
    SelectMethod,
    ProposeCandidate,
    FastAccept { candidate: usize },
    SlowAccept { candidate: usize },
    Direct { skip: usize },
    FinalDraw,
    Done,
}

impl Phase {
    /// One of the steps of the rejection method.
    pub open spec fn is_rejection(self) -> bool {
        self is ProposeCandidate || self is FastAccept || self is SlowAccept
    }
}

/// The mathematical state of a run.
pub struct RunState {
    /// `n`, the number of items to select.
    pub sample_size: nat,
    /// `N`, the number of items in the population.
    pub population: nat,
    pub alpha: nat,
    /// `N'`, the items not yet passed over.
    pub remaining: nat,
    /// `n'`, the selections still to make.
    pub to_select: nat,
    pub phase: Phase,
    /// The skip count before each selection made so far.
    pub skips: Seq<nat>,
    /// The selections committed by the rejection method.
    pub rejection_selections: nat,
    /// The selections committed by direct inversion, the final draw aside.
    pub direct_selections: nat,
}

impl RunState {
    /// `qu1 = N' - n' + 1`, one more than the largest skip still allowed.
    pub open spec fn qu1(self) -> int {
        self.remaining - self.to_select + 1
    }

    /// The items still to pass over in direct inversion, the current skip
    /// count taken off.
    pub open spec fn direct_remaining(self) -> int {
        self.remaining - self.phase->Direct_skip
    }

    /// The unselected items still to pass over in direct inversion.
    pub open spec fn direct_top(self) -> int {
        self.remaining - self.to_select - self.phase->Direct_skip
    }

    pub open spec fn valid(self) -> bool {
        &&& self.alpha >= 1
        &&& self.sample_size <= self.population
        &&& self.remaining >= self.to_select
        &&& sum_of(self.skips) + self.skips.len() + self.remaining == self.population
        &&& self.skips.len() + self.to_select == self.sample_size
        &&& (self.phase is SelectMethod || self.phase.is_rejection() || self.phase is Direct)
            ==> self.to_select >= 2
        &&& self.phase is FastAccept ==> self.phase->FastAccept_candidate < self.qu1()
        &&& self.phase is SlowAccept ==> self.phase->SlowAccept_candidate < self.qu1()
        &&& self.phase is Direct ==> self.phase->Direct_skip <= self.remaining - self.to_select
        &&& self.phase is FinalDraw ==> self.to_select == 1
        &&& (self.phase is Done <==> self.to_select == 0)
        &&& self.rejection_selections + self.direct_selections <= self.skips.len()
        &&& direct_rule(self.sample_size, self.population, self.alpha) ==> {
            &&& self.rejection_selections == 0
            &&& !self.phase.is_rejection()
            &&& self.phase is SelectMethod ==> self.skips.len() == 0
        }
    }

    /// The state of a run that has not drawn anything yet.
    pub open spec fn initial(c: SamplingConfig) -> RunState {
        RunState {
            sample_size: c.n as nat,
            population: c.population as nat,
            alpha: c.alpha as nat,
            remaining: c.population as nat,
            to_select: c.n as nat,
            phase: if c.n == 0 {
                Phase::Done
            } else if c.n == 1 {
                Phase::FinalDraw
            } else {
                Phase::SelectMethod
            },
            skips: Seq::empty(),
            rejection_selections: 0,
            direct_selections: 0,
        }
    }

    /// The state after committing a selection preceded by `s` skipped items.
    /// A rejection-method selection leads back to `SelectMethod`, a direct
    /// one to the next direct selection, and either to the final draw when
    /// one selection is left.
    pub open spec fn committed(self, s: nat, by_rejection: bool, by_direct: bool) -> RunState {
        let left = (self.to_select - 1) as nat;
        RunState {
            remaining: (self.remaining - s - 1) as nat,
            to_select: left,
            phase: if left == 0 {
                Phase::Done
            } else if left == 1 {
                Phase::FinalDraw
            } else if by_direct {
                Phase::Direct { skip: 0 }
            } else {
                Phase::SelectMethod
            },
            skips: self.skips.push(s),
            rejection_selections: self.rejection_selections + if by_rejection { 1nat } else { 0nat },
            direct_selections: self.direct_selections + if by_direct { 1nat } else { 0nat },
            ..self
        }
    }

    pub open spec fn with_phase(self, p: Phase) -> RunState {
        RunState { phase: p, ..self }
    }
}

/// The bounds of the product that the slow acceptance test forms: the terms
/// `top / bottom`, `(top - 1) / (bottom - 1)`, ..., with `top` running down
/// to `limit`.
#[derive(Debug, Clone, Copy, PartialEq, Eq, Structural)]
pub struct ProductRange {
    pub top: usize,
    pub bottom: usize,
    pub limit: usize,
}

/// The sampling automaton of one run: it owns the population bookkeeping
/// and decides, from the integer outcomes of the caller's draws, which step
/// comes next and which skip count each selection has.
pub struct SamplingAutomaton {
    sample_size: usize,
    population: usize,
    alpha: usize,
    remaining: usize,
    to_select: usize,
    qu1: usize,
    phase: Phase,
    rejection_selections: usize,
    direct_selections: usize,
    skips: Ghost<Seq<nat>>,
}

impl View for SamplingAutomaton {
    type V = RunState;

    closed spec fn view(&self) -> RunState {
        RunState {
            sample_size: self.sample_size as nat,
            population: self.population as nat,
            alpha: self.alpha as nat,
            remaining: self.remaining as nat,
            to_select: self.to_select as nat,
            phase: self.phase,
            skips: self.skips@,
            rejection_selections: self.rejection_selections as nat,
            direct_selections: self.direct_selections as nat,
        }
    }
}

impl SamplingAutomaton {
    pub closed spec fn wf(&self) -> bool {
        &&& self@.valid()
        &&& self.to_select > 0 ==> self.qu1 == self@.qu1()
    }

    /// Starts a run, or refuses the configuration before anything is drawn.
    pub fn new(config: SamplingConfig) -> (r: Result<SamplingAutomaton, SampleError>)
        ensures
            config.n > config.population ==> r == Err::<SamplingAutomaton, SampleError>(
                SampleError::InvalidSampleSize,
            ),
            config.n <= config.population && config.alpha == 0 ==> r == Err::<
                SamplingAutomaton,
                SampleError,
            >(SampleError::InvalidAlpha),
            config.valid() ==> r is Ok && r->Ok_0.wf() && r->Ok_0@ == RunState::initial(config),
    {
        if config.n > config.population {
            return Err(SampleError::InvalidSampleSize);
        }
        if config.alpha == 0 {
            return Err(SampleError::InvalidAlpha);
        }
        let phase = if config.n == 0 {
            Phase::Done
        } else if config.n == 1 {
            Phase::FinalDraw
        } else {
            Phase::SelectMethod
        };
        let qu1: usize = if config.n == 0 {
            0
        } else {
            config.population - config.n + 1
        };
        let r = SamplingAutomaton {
            sample_size: config.n,
            population: config.population,
            alpha: config.alpha,
            remaining: config.population,
            to_select: config.n,
            qu1,
            phase,
            rejection_selections: 0,
            direct_selections: 0,
            skips: Ghost(Seq::empty()),
        };
        assert(r@ == RunState::initial(config));
        Ok(r)
    }

    /// Chooses the method for the next selection: direct inversion takes the
    /// rest of the run once `n' * alpha >= N'`.
    pub fn select_method(&mut self)
        requires
            old(self).wf(),
            old(self)@.phase is SelectMethod,
        ensures
            final(self).wf(),
            final(self)@ == old(self)@.with_phase(
                if direct_rule(old(self)@.to_select, old(self)@.remaining, old(self)@.alpha) {
                    Phase::Direct { skip: 0 }
                } else {
                    Phase::ProposeCandidate
                },
            ),
    {
        if direct_preferred(self.to_select, self.remaining, self.alpha) {
            self.phase = Phase::Direct { skip: 0 };
        } else {
            self.phase = Phase::ProposeCandidate;
        }
    }

    /// Takes the integer part of a proposed skip. It is kept for the
    /// acceptance tests when it is below `qu1`; otherwise a new one is
    /// proposed.
    pub fn propose(&mut self, candidate: usize) -> (r: bool)
        requires
            old(self).wf(),
            old(self)@.phase is ProposeCandidate,
        ensures
            final(self).wf(),
            r == (candidate < old(self)@.qu1()),
            final(self)@ == old(self)@.with_phase(
                if r {
                    Phase::FastAccept { candidate }
                } else {
                    Phase::ProposeCandidate
                },
            ),
    {
        if candidate < self.qu1 {
            self.phase = Phase::FastAccept { candidate };
            true
        } else {
            false
        }
    }

    /// Records a selection preceded by `s` skipped items.
    fn commit(&mut self, s: usize, by_rejection: bool, by_direct: bool)
        requires
            old(self).wf(),
            old(self)@.to_select >= 1,
            s <= old(self)@.remaining - old(self)@.to_select,
            !(by_rejection && by_direct),
            by_rejection ==> !direct_rule(
                old(self)@.sample_size,
                old(self)@.population,
                old(self)@.alpha,
            ),
            by_direct ==> old(self)@.to_select >= 2,
            !by_direct && old(self)@.to_select >= 2 ==> by_rejection,
        ensures
            final(self).wf(),
            final(self)@ == old(self)@.committed(s as nat, by_rejection, by_direct),
    {
        let ghost prev = self@;
        proof {
            lemma_sum_push(self.skips@, s as nat);
        }
        self.remaining = self.remaining - s - 1;
        self.to_select = self.to_select - 1;
        self.qu1 = self.qu1 - s;
        self.skips = Ghost(self.skips@.push(s as nat));
        if by_rejection {
            self.rejection_selections = self.rejection_selections + 1;
        }
        if by_direct {
            self.direct_selections = self.direct_selections + 1;
        }
        self.phase = if self.to_select == 0 {
            Phase::Done
        } else if self.to_select == 1 {
            Phase::FinalDraw
        } else if by_direct {
            Phase::Direct { skip: 0 }
        } else {
            Phase::SelectMethod
        };
        assert(self@ == prev.committed(s as nat, by_rejection, by_direct));
    }

    /// The outcome of the fast acceptance test on the kept candidate. An
    /// accepted candidate is committed as the skip count of a selection,
    /// which is returned; otherwise the slow test comes next.
    pub fn fast_accept(&mut self, accepted: bool) -> (r: Option<usize>)
        requires
            old(self).wf(),
            old(self)@.phase is FastAccept,
        ensures
            final(self).wf(),
            accepted ==> r == Some(old(self)@.phase->FastAccept_candidate) && final(self)@
                == old(self)@.committed(old(self)@.phase->FastAccept_candidate as nat, true, false),
            !accepted ==> r is None && final(self)@ == old(self)@.with_phase(
                Phase::SlowAccept { candidate: old(self)@.phase->FastAccept_candidate },
            ),
    {
        let candidate = match self.phase {
            Phase::FastAccept { candidate } => candidate,
            _ => 0,
        };
        if accepted {
            self.commit(candidate, true, false);
            Some(candidate)
        } else {
            self.phase = Phase::SlowAccept { candidate };
            None
        }
    }

    /// The bounds of the slow test's product for the kept candidate `S`:
    /// when `n' - 1 > S`, `bottom = N' - n'` and `limit = N' - S`; otherwise
    /// `bottom = N' - S - 1` and `limit = qu1`; `top` starts at `N' - 1`.
    /// Every `bottom` of the product stays at least one.
    pub fn product_range(&self) -> (r: ProductRange)
        requires
            self.wf(),
            self@.phase is SlowAccept,
        ensures
            ({
                let v = self@;
                let s = v.phase->SlowAccept_candidate as int;
                &&& r.top == v.remaining - 1
                &&& v.to_select - 1 > s ==> r.bottom == v.remaining - v.to_select && r.limit
                    == v.remaining - s
                &&& v.to_select - 1 <= s ==> r.bottom == v.remaining - s - 1 && r.limit
                    == v.qu1()
                &&& r.limit <= v.remaining
                &&& r.bottom + r.limit >= r.top + 1
            }),
    {
        let s = match self.phase {
            Phase::SlowAccept { candidate } => candidate,
            _ => 0,
        };
        if self.to_select - 1 > s {
            ProductRange {
                top: self.remaining - 1,
                bottom: self.remaining - self.to_select,
                limit: self.remaining - s,
            }
        } else {
            ProductRange { top: self.remaining - 1, bottom: self.remaining - s - 1, limit: self.qu1 }
        }
    }

    /// The outcome of the slow acceptance test on the kept candidate. An
    /// accepted candidate is committed and returned; otherwise a new
    /// candidate is proposed.
    pub fn slow_accept(&mut self, accepted: bool) -> (r: Option<usize>)
        requires
            old(self).wf(),
            old(self)@.phase is SlowAccept,
        ensures
            final(self).wf(),
            accepted ==> r == Some(old(self)@.phase->SlowAccept_candidate) && final(self)@
                == old(self)@.committed(old(self)@.phase->SlowAccept_candidate as nat, true, false),
            !accepted ==> r is None && final(self)@ == old(self)@.with_phase(
                Phase::ProposeCandidate,
            ),
    {
        let candidate = match self.phase {
            Phase::SlowAccept { candidate } => candidate,
            _ => 0,
        };
        if accepted {
            self.commit(candidate, true, false);
            Some(candidate)
        } else {
            self.phase = Phase::ProposeCandidate;
            None
        }
    }

    /// In direct inversion, the items still to pass over: `N'` with the
    /// items skipped so far for this selection taken off.
    pub fn direct_remaining(&self) -> (r: usize)
        requires
            self.wf(),
            self@.phase is Direct,
        ensures
            r == self@.direct_remaining(),
            r >= 2,
    {
        match self.phase {
            Phase::Direct { skip } => self.remaining - skip,
            _ => self.remaining,
        }
    }

    /// In direct inversion, `top`: the unselected items still to pass over.
    pub fn direct_top(&self) -> (r: usize)
        requires
            self.wf(),
            self@.phase is Direct,
        ensures
            r == self@.direct_top(),
    {
        match self.phase {
            Phase::Direct { skip } => self.remaining - self.to_select - skip,
            _ => 0,
        }
    }

    /// One more item is skipped in direct inversion, while an unselected one
    /// is left; returns whether it was.
    pub fn direct_skip(&mut self) -> (r: bool)
        requires
            old(self).wf(),
            old(self)@.phase is Direct,
        ensures
            final(self).wf(),
            r == (old(self)@.direct_top() > 0),
            final(self)@ == old(self)@.with_phase(
                Phase::Direct {
                    skip: if r {
                        (old(self)@.phase->Direct_skip + 1) as usize
                    } else {
                        old(self)@.phase->Direct_skip
                    },
                },
            ),
    {
        let skip = match self.phase {
            Phase::Direct { skip } => skip,
            _ => 0,
        };
        if self.remaining - self.to_select - skip > 0 {
            self.phase = Phase::Direct { skip: skip + 1 };
            true
        } else {
            false
        }
    }

    /// Ends the direct-inversion search: the item after those skipped is
    /// selected, and the skip count is returned.
    pub fn direct_select(&mut self) -> (r: usize)
        requires
            old(self).wf(),
            old(self)@.phase is Direct,
        ensures
            final(self).wf(),
            r == old(self)@.phase->Direct_skip,
            final(self)@ == old(self)@.committed(r as nat, false, true),
    {
        let skip = match self.phase {
            Phase::Direct { skip } => skip,
            _ => 0,
        };
        self.commit(skip, false, true);
        skip
    }

    /// The last selection of a run: the skip count is drawn uniformly below
    /// `N'`. A draw that is not below `N'` is refused and drawn again.
    pub fn final_draw(&mut self, candidate: usize) -> (r: Option<usize>)
        requires
            old(self).wf(),
            old(self)@.phase is FinalDraw,
        ensures
            final(self).wf(),
            candidate < old(self)@.remaining ==> r == Some(candidate) && final(self)@
                == old(self)@.committed(candidate as nat, false, false),
            candidate >= old(self)@.remaining ==> r is None && final(self)@ == old(self)@,
    {
        if candidate < self.remaining {
            self.commit(candidate, false, false);
            Some(candidate)
        } else {
            None
        }
    }

    pub fn phase(&self) -> (r: Phase)
        ensures
            r == self@.phase,
    {
        self.phase
    }

    /// `N'`: the items not yet passed over.
    pub fn remaining(&self) -> (r: usize)
        ensures
            r == self@.remaining,
    {
        self.remaining
    }

    /// `n'`: the selections still to make.
    pub fn to_select(&self) -> (r: usize)
        ensures
            r == self@.to_select,
    {
        self.to_select
    }

    /// `qu1 = N' - n' + 1`, while selections remain.
    pub fn qu1(&self) -> (r: usize)
        requires
            self.wf(),
            self@.to_select > 0,
        ensures
            r == self@.qu1(),
    {
        self.qu1
    }

    pub fn sample_size(&self) -> (r: usize)
        ensures
            r == self@.sample_size,
    {
        self.sample_size
    }

    pub fn population(&self) -> (r: usize)
        ensures
            r == self@.population,
    {
        self.population
    }

    pub fn alpha(&self) -> (r: usize)
        ensures
            r == self@.alpha,
    {
        self.alpha
    }

    /// How many selections the rejection method has committed.
    pub fn rejection_selections(&self) -> (r: usize)
        ensures
            r == self@.rejection_selections,
    {
        self.rejection_selections
    }

    /// How many selections direct inversion has committed, the final draw
    /// aside.
    pub fn direct_selections(&self) -> (r: usize)
        ensures
            r == self@.direct_selections,
    {
        self.direct_selections
    }

    pub fn is_done(&self) -> (r: bool)
        requires
            self.wf(),
        ensures
            r == (self@.phase is Done),
            r == (self@.to_select == 0),
    {
        self.to_select == 0
    }
}

/// In every state of a run, the selections made so far stand at strictly
/// increasing positions among the items passed over, which lie inside the
/// population; a finished run has made exactly `n` selections and passed
/// over the whole population but its last `N'` items.
pub proof fn lemma_run_positions(v: RunState)
    requires
        v.valid(),
    ensures
        forall|i: int, j: int|
            0 <= i < j < v.skips.len() ==> #[trigger] position_of(v.skips, i) < #[trigger] position_of(
                v.skips,
                j,
            ),
        forall|i: int|
            0 <= i < v.skips.len() ==> 0 <= #[trigger] position_of(v.skips, i) < v.population
                - v.remaining,
        v.population - v.remaining <= v.population,
        v.phase is Done ==> v.skips.len() == v.sample_size,
{
    lemma_positions_ordered(v.skips, (v.population - v.remaining) as nat);
}

/// A run that selects the whole population passes over nothing: the `i`-th
/// selection is item `i`, whatever `alpha` is.
pub proof fn lemma_full_sample_in_order(v: RunState)
    requires
        v.valid(),
        v.sample_size == v.population,
    ensures
        v.remaining == v.to_select,
        forall|i: int| 0 <= i < v.skips.len() ==> #[trigger] v.skips[i] == 0,
        forall|i: int| 0 <= i < v.skips.len() ==> #[trigger] position_of(v.skips, i) == i,
{
    lemma_zero_sum(v.skips);
}

/// A run started with `n * alpha >= N` never enters the rejection method:
/// direct inversion and the final draw make every selection.
pub proof fn lemma_direct_exclusive(v: RunState)
    requires
        v.valid(),
        direct_rule(v.sample_size, v.population, v.alpha),
    ensures
        v.rejection_selections == 0,
        !v.phase.is_rejection(),
{
}

/// A run that selects the whole population only makes terminal draws: it
/// never proposes a candidate, direct inversion finds nothing to skip, and
/// the final draw has a single item to choose from.
pub proof fn lemma_full_sample_terminal(v: RunState)
    requires
        v.valid(),
        v.sample_size == v.population,
    ensures
        !v.phase.is_rejection(),
        v.rejection_selections == 0,
        v.phase is Direct ==> v.direct_top() == 0,
        v.phase is FinalDraw ==> v.remaining == 1,
{
    lemma_zero_sum(v.skips);
    assert(direct_rule(v.sample_size, v.population, v.alpha)) by (nonlinear_arith)
        requires
            v.sample_size == v.population,
            v.alpha >= 1,
    ;
}

/// A run with `n = 0` is finished before any draw and selects nothing.
pub proof fn lemma_empty_sample(c: SamplingConfig)
    requires
        c.valid(),
        c.n == 0,
    ensures
        RunState::initial(c).phase is Done,
        RunState::initial(c).skips.len() == 0,
{
}

/// A run with `n = 1` goes straight to the final draw, which accepts exactly
/// the skip counts below `N` and selects the item at that position.
pub proof fn lemma_single_selection(c: SamplingConfig, s: nat)
    requires
        c.valid(),
        c.n == 1,
        s < c.population,
    ensures
        RunState::initial(c).phase is FinalDraw,
        RunState::initial(c).committed(s, false, false).phase is Done,
        RunState::initial(c).committed(s, false, false).skips == seq![s],
        position_of(seq![s], 0) == s,
{
    assert(seq![s].take(1) =~= seq![s]);
    assert(seq![s].drop_last() =~= Seq::<nat>::empty());
    assert(Seq::<nat>::empty().push(s) =~= seq![s]);
    assert(sum_of(Seq::<nat>::empty()) == 0);
    assert(sum_of(seq![s]) == s);
}

} // verus!
