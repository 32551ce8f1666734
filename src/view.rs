use vstd::prelude::*;
use crate::skips::{sum_of, position_of, lemma_sum_take_step, lemma_sum_take_mono};

verus! {

/// One decision on the upstream sequence: pass over a number of items, or
/// take the next one into the sample.
#[derive(Debug, Clone, Copy, PartialEq, Eq, Structural)]
pub enum Decision {
    Skip(usize),
    Select,
}

/// The upstream items that a decision consumes.
pub open spec fn weight(d: Decision) -> nat {
    match d {
        Decision::Skip(s) => s as nat,
        Decision::Select => 1,
    }
}

/// The upstream items that a decision sequence consumes.
pub open spec fn consumed(ds: Seq<Decision>) -> nat
    decreases ds.len(),
{
    if ds.len() == 0 {
        0
    } else {
        consumed(ds.drop_last()) + weight(ds.last())
    }
}

/// The selections in a decision sequence.
pub open spec fn selections(ds: Seq<Decision>) -> nat
    decreases ds.len(),
{
    if ds.len() == 0 {
        0
    } else {
        selections(ds.drop_last()) + if ds.last() is Select {
            1nat
        } else {
            0nat
        }
    }
}

proof fn lemma_push_decision(ds: Seq<Decision>, d: Decision)
    ensures
        consumed(ds.push(d)) == consumed(ds) + weight(d),
        selections(ds.push(d)) == selections(ds) + if d is Select {
            1nat
        } else {
            0nat
        },
{
    assert(ds.push(d).drop_last() =~= ds);
}

/// Skip counts as mathematical integers.
pub open spec fn nats(s: Seq<usize>) -> Seq<nat> {
    s.map_values(|x: usize| x as nat)
}

/// Whether upstream item `j` is one of the selections that the skip counts
/// `s` place.
pub open spec fn is_selected(s: Seq<nat>, j: int) -> bool {
    exists|i: int| 0 <= i < s.len() && position_of(s, i) == j
}

/// `sum_of(s.take(k)) + k`, the items that the first `k` selections consume,
/// stays within the whole.
proof fn lemma_consumed_bound(s: Seq<nat>, k: int)
    requires
        0 <= k < s.len(),
    ensures
        sum_of(s.take(k)) + k + s[k] + 1 <= sum_of(s) + s.len(),
        sum_of(s.take(k + 1)) == sum_of(s.take(k)) + s[k],
{
    lemma_sum_take_step(s, k);
    lemma_sum_take_mono(s, k + 1, s.len() as int);
    assert(s.take(s.len() as int) =~= s);
}

/// The position of each selection in the population.
pub fn positions_from_skips(skips: &Vec<usize>, population: usize) -> (r: Vec<usize>)
    requires
        sum_of(nats(skips@)) + skips@.len() <= population,
    ensures
        r@.len() == skips@.len(),
        forall|i: int| 0 <= i < r@.len() ==> r@[i] == position_of(nats(skips@), i),
{
    let ghost s = nats(skips@);
    let mut r: Vec<usize> = Vec::new();
    let mut pos: usize = 0;
    let mut k: usize = 0;
    while k < skips.len()
        invariant
            s == nats(skips@),
            sum_of(s) + s.len() <= population,
            k <= skips@.len(),
            pos == sum_of(s.take(k as int)) + k,
            r@.len() == k,
            forall|i: int| 0 <= i < k ==> r@[i] == position_of(s, i),
        decreases skips@.len() - k,
    {
        proof {
            lemma_consumed_bound(s, k as int);
        }
        pos = pos + skips[k];
        r.push(pos);
        pos = pos + 1;
        k = k + 1;
    }
    r
}

/// The selected items of `items`, in their order: before selection `i`,
/// `skips[i]` items are passed over.
pub fn select_by_skips<T: Copy>(items: &Vec<T>, skips: &Vec<usize>) -> (r: Vec<T>)
    requires
        sum_of(nats(skips@)) + skips@.len() <= items@.len(),
    ensures
        r@.len() == skips@.len(),
        forall|i: int| 0 <= i < r@.len() ==> r@[i] == items@[position_of(nats(skips@), i)],
{
    let ghost s = nats(skips@);
    let len = items.len();
    let mut r: Vec<T> = Vec::new();
    let mut pos: usize = 0;
    let mut k: usize = 0;
    while k < skips.len()
        invariant
            s == nats(skips@),
            sum_of(s) + s.len() <= items@.len(),
            len == items@.len(),
            k <= skips@.len(),
            pos == sum_of(s.take(k as int)) + k,
            r@.len() == k,
            forall|i: int| 0 <= i < k ==> r@[i] == items@[position_of(s, i)],
        decreases skips@.len() - k,
    {
        proof {
            lemma_consumed_bound(s, k as int);
        }
        pos = pos + skips[k];
        r.push(items[pos]);
        pos = pos + 1;
        k = k + 1;
    }
    r
}

/// The sample mask: one flag per item of the population, set exactly at the
/// selected positions.
pub fn mask_from_skips(skips: &Vec<usize>, population: usize) -> (r: Vec<bool>)
    requires
        sum_of(nats(skips@)) + skips@.len() <= population,
    ensures
        r@.len() == population,
        forall|j: int| 0 <= j < population ==> r@[j] == is_selected(nats(skips@), j),
{
    let ghost s = nats(skips@);
    let mut r: Vec<bool> = Vec::new();
    let mut k: usize = 0;
    while k < skips.len()
        invariant
            s == nats(skips@),
            sum_of(s) + s.len() <= population,
            k <= skips@.len(),
            r@.len() == sum_of(s.take(k as int)) + k,
            forall|i: int| 0 <= i < k ==> 0 <= #[trigger] position_of(s, i) < r@.len(),
            forall|j: int| 0 <= j < r@.len() ==> r@[j] == exists|i: int|
                0 <= i < k && #[trigger] position_of(s, i) == j,
        decreases skips@.len() - k,
    {
        proof {
            lemma_consumed_bound(s, k as int);
        }
        let n = skips[k];
        let mut m: usize = 0;
        while m < n
            invariant
                s == nats(skips@),
                k < skips@.len(),
                n == s[k as int],
                m <= n,
                r@.len() == sum_of(s.take(k as int)) + k + m,
                sum_of(s.take(k as int)) + k + n + 1 <= population,
                forall|i: int| 0 <= i < k ==> 0 <= #[trigger] position_of(s, i) < sum_of(
                    s.take(k as int),
                ) + k,
                forall|j: int| 0 <= j < r@.len() ==> r@[j] == exists|i: int|
                    0 <= i < k && #[trigger] position_of(s, i) == j,
            decreases n - m,
        {
            r.push(false);
            m = m + 1;
        }
        assert(position_of(s, k as int) == r@.len());
        r.push(true);
        k = k + 1;
    }
    assert(s.take(k as int) =~= s);
    while r.len() < population
        invariant
            s == nats(skips@),
            k == skips@.len(),
            r@.len() <= population,
            forall|i: int| 0 <= i < k ==> 0 <= #[trigger] position_of(s, i) < r@.len(),
            forall|j: int| 0 <= j < r@.len() ==> r@[j] == exists|i: int|
                0 <= i < k && #[trigger] position_of(s, i) == j,
        decreases population - r@.len(),
    {
        r.push(false);
    }
    r
}

/// The decision sequence of a run: `Skip(skips[i])` then `Select` for each
/// selection, and a last `Skip` over the items after the final selection,
/// so that the decisions consume the whole population.
pub fn decisions_from_skips(skips: &Vec<usize>, population: usize) -> (r: Vec<Decision>)
    requires
        sum_of(nats(skips@)) + skips@.len() <= population,
    ensures
        r@.len() == 2 * skips@.len() + 1,
        forall|i: int|
            0 <= i < skips@.len() ==> r@[2 * i] == Decision::Skip(skips@[i]) && r@[2 * i + 1]
                == Decision::Select,
        r@[2 * skips@.len() as int] == Decision::Skip(
            (population - sum_of(nats(skips@)) - skips@.len()) as usize,
        ),
        consumed(r@) == population,
        selections(r@) == skips@.len(),
{
    let ghost s = nats(skips@);
    let mut r: Vec<Decision> = Vec::new();
    let mut pos: usize = 0;
    let mut k: usize = 0;
    while k < skips.len()
        invariant
            s == nats(skips@),
            sum_of(s) + s.len() <= population,
            k <= skips@.len(),
            pos == sum_of(s.take(k as int)) + k,
            r@.len() == 2 * k,
            consumed(r@) == pos,
            selections(r@) == k,
            forall|i: int|
                0 <= i < k ==> r@[2 * i] == Decision::Skip(skips@[i]) && r@[2 * i + 1]
                    == Decision::Select,
        decreases skips@.len() - k,
    {
        proof {
            lemma_consumed_bound(s, k as int);
        }
        pos = pos + skips[k];
        let ghost before = r@;
        let d = Decision::Skip(skips[k]);
        proof {
            lemma_push_decision(before, d);
            lemma_push_decision(before.push(d), Decision::Select);
        }
        r.push(d);
        r.push(Decision::Select);
        assert(r@ == before.push(d).push(Decision::Select));
        assert(r@[2 * k as int] == d);
        assert forall|i: int| 0 <= i < k + 1 implies r@[2 * i] == Decision::Skip(skips@[i])
            && r@[2 * i + 1] == Decision::Select by {
            if i < k {
                assert(r@[2 * i] == before[2 * i]);
                assert(r@[2 * i + 1] == before[2 * i + 1]);
            }
        }
        pos = pos + 1;
        k = k + 1;
    }
    assert(s.take(k as int) =~= s);
    let last = Decision::Skip(population - pos);
    proof {
        lemma_push_decision(r@, last);
    }
    r.push(last);
    r
}

/// The pull discipline of a lazy sample view over an upstream sequence:
/// loaded with a skip count `S`, it answers for each upstream item pulled
/// whether to discard it (the first `S`) or to hand it out (the next one).
pub struct ViewCursor {
    pending: usize,
    armed: bool,
}

impl View for ViewCursor {
    /// The items still to discard, and whether a selection is pending.
    type V = (nat, bool);

    closed spec fn view(&self) -> (nat, bool) {
        (self.pending as nat, self.armed)
    }
}

impl ViewCursor {
    pub fn new() -> (r: ViewCursor)
        ensures
            r@ == (0nat, false),
    {
        ViewCursor { pending: 0, armed: false }
    }

    /// Whether a selection is pending.
    pub fn is_armed(&self) -> (r: bool)
        ensures
            r == self@.1,
    {
        self.armed
    }

    /// Prepares the next selection, which `skip` discarded items precede.
    pub fn load(&mut self, skip: usize)
        requires
            !old(self)@.1,
        ensures
            final(self)@ == (skip as nat, true),
    {
        self.pending = skip;
        self.armed = true;
    }

    /// The fate of the next upstream item: `false` to discard it, `true` to
    /// hand it out, which ends the pending selection.
    pub fn pull(&mut self) -> (r: bool)
        requires
            old(self)@.1,
        ensures
            r == (old(self)@.0 == 0),
            r ==> final(self)@ == (0nat, false),
            !r ==> final(self)@ == ((old(self)@.0 - 1) as nat, true),
    {
        if self.pending == 0 {
            self.armed = false;
            true
        } else {
            self.pending = self.pending - 1;
            false
        }
    }
}

} // verus!
