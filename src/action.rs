use vstd::prelude::*;
use crate::dice::Dice;
use crate::dice::Vantage;
use crate::dice::MAX_ROLL;
use crate::error::RollError;
use crate::modifier::combine;
use crate::modifier::lemma_sum_bounds;
use crate::modifier::sum_values;
use crate::modifier::Modifier;
use crate::modifier::RollResult;
use crate::roller::Roller;

verus! {

/// How many scripted draws resolving all of `dice` under `vantage` uses.
pub open spec fn total_draws(dice: Seq<Dice>, vantage: Vantage) -> int
    decreases dice.len(),
{
    if dice.len() == 0 {
        0
    } else {
        total_draws(dice.drop_last(), vantage) + dice.last().draws_needed(vantage)
    }
}

/// The base value that scripted draws `s` give for all of `dice`: each
/// specification in turn takes its draws from where the one before stopped.
pub open spec fn scripted_total(dice: Seq<Dice>, vantage: Vantage, s: Seq<u8>) -> int
    decreases dice.len(),
{
    if dice.len() == 0 {
        0
    } else {
        let before = dice.drop_last();
        scripted_total(before, vantage, s) + dice.last().scripted_base(
            vantage,
            s.skip(total_draws(before, vantage)),
        )
    }
}

/// The smallest base value that `dice` can roll: one per die.
pub open spec fn min_total(dice: Seq<Dice>) -> int
    decreases dice.len(),
{
    if dice.len() == 0 {
        0
    } else {
        min_total(dice.drop_last()) + dice.last().spec_count()
    }
}

/// The largest base value that `dice` can roll: every die on its top face.
pub open spec fn max_total(dice: Seq<Dice>) -> int
    decreases dice.len(),
{
    if dice.len() == 0 {
        0
    } else {
        max_total(dice.drop_last()) + dice.last().spec_count() * dice.last().spec_sides()
    }
}

/// Entry `i` of the threshold table `ts` applies to `total`.
pub open spec fn qualifies(ts: Seq<(i128, String)>, total: int, i: int) -> bool {
    0 <= i < ts.len() && ts[i].0 <= total
}

/// Entry `i` is the one that `total` selects: it applies, and every other
/// entry that applies has a lower minimum, or the same minimum and an
/// earlier place in the table.
pub open spec fn is_choice(ts: Seq<(i128, String)>, total: int, i: int) -> bool {
    &&& qualifies(ts, total, i)
    &&& forall|j: int|
        qualifies(ts, total, j) ==> ts[j].0 < ts[i].0 || (ts[j].0 == ts[i].0 && j <= i)
}

/// A total selects at most one entry of a threshold table.
pub proof fn lemma_choice_unique(ts: Seq<(i128, String)>, total: int, i: int, k: int)
    requires
        is_choice(ts, total, i),
        is_choice(ts, total, k),
    ensures
        i == k,
{
}

/// Threshold selection is monotonic: an entry that applies to a total
/// applies to every larger total, and the larger total never selects an
/// entry with a lower minimum.
pub proof fn lemma_choice_monotonic(
    ts: Seq<(i128, String)>,
    total1: int,
    total2: int,
    i1: int,
    i2: int,
)
    requires
        total1 <= total2,
        is_choice(ts, total1, i1),
        is_choice(ts, total2, i2),
    ensures
        ts[i1].0 <= ts[i2].0,
{
    assert(qualifies(ts, total2, i1));
}

/// Whatever applies to a total applies to every larger total, so a larger
/// total never fails a lookup that a smaller one passed.
pub proof fn lemma_qualifies_upward(ts: Seq<(i128, String)>, total1: int, total2: int, i: int)
    requires
        total1 <= total2,
        qualifies(ts, total1, i),
    ensures
        qualifies(ts, total2, i),
{
}

/// A reusable bundle of dice, a vantage policy and a table of outcome
/// descriptions keyed by minimum total.
pub struct Action {
    dice: Vec<Dice>,
    vantage: Vantage,
    descriptions: Vec<(i128, String)>,
}

impl Action {
    pub closed spec fn spec_dice(&self) -> Seq<Dice> {
        self.dice@
    }

    pub closed spec fn spec_vantage(&self) -> Vantage {
        self.vantage
    }

    pub closed spec fn spec_thresholds(&self) -> Seq<(i128, String)> {
        self.descriptions@
    }

    pub fn new(dice: Vec<Dice>, vantage: Vantage, descriptions: Vec<(i128, String)>) -> (r:
        Action)
        ensures
            r.spec_dice() == dice@,
            r.spec_vantage() == vantage,
            r.spec_thresholds() == descriptions@,
    {
        Action { dice, vantage, descriptions }
    }

    pub fn dice(&self) -> (r: &Vec<Dice>)
        ensures
            r@ == self.spec_dice(),
    {
        &self.dice
    }

    pub fn vantage(&self) -> (r: Vantage)
        ensures
            r == self.spec_vantage(),
    {
        self.vantage
    }

    pub fn descriptions(&self) -> (r: &Vec<(i128, String)>)
        ensures
            r@ == self.spec_thresholds(),
    {
        &self.descriptions
    }

    /// Rolls every die specification in order under the action's vantage,
    /// sums the kept rolls into the base value and applies `modifiers`.
    /// Fails with `EmptyDiceSpec` when the action has no dice.
    pub fn resolve(&self, modifiers: &Vec<Modifier>, roller: &mut Roller) -> (r: Result<
        RollResult,
        RollError,
    >)
        ensures
            r is Err <==> self.spec_dice().len() == 0,
            r is Err ==> r->Err_0 == RollError::EmptyDiceSpec && *final(roller) == *old(roller),
            r is Ok ==> min_total(self.spec_dice()) <= r->Ok_0.spec_base() <= max_total(
                self.spec_dice(),
            ),
            r is Ok ==> r->Ok_0.spec_total() == r->Ok_0.spec_base() + sum_values(modifiers@),
            r is Ok ==> r->Ok_0.spec_applied() == modifiers@,
            r is Ok && old(roller).pending().len() >= total_draws(
                self.spec_dice(),
                self.spec_vantage(),
            ) ==> r->Ok_0.spec_base() == scripted_total(
                self.spec_dice(),
                self.spec_vantage(),
                old(roller).pending(),
            ) && final(roller).pending() == old(roller).pending().skip(
                total_draws(self.spec_dice(), self.spec_vantage()),
            ),
    {
        if self.dice.len() == 0 {
            return Err(RollError::EmptyDiceSpec);
        }
        let ghost s0 = roller.pending();
        let ghost ds = self.dice@;
        let v = self.vantage;
        let mut base: u128 = 0;
        let mut i: usize = 0;
        while i < self.dice.len()
            invariant
                ds == self.dice@,
                v == self.vantage,
                i <= ds.len(),
                total_draws(ds.take(i as int), v) >= 0,
                min_total(ds.take(i as int)) <= base <= max_total(ds.take(i as int)),
                base <= i * MAX_ROLL,
                s0.len() >= total_draws(ds.take(i as int), v) ==> base == scripted_total(
                    ds.take(i as int),
                    v,
                    s0,
                ) && roller.pending() == s0.skip(total_draws(ds.take(i as int), v)),
                s0.len() < total_draws(ds.take(i as int), v) ==> roller.pending().len() == 0,
            decreases ds.len() - i,
        {
            let ghost before = roller.pending();
            let d = &self.dice[i];
            let kept = d.vantage_roll(v, roller);
            proof {
                let pre = ds.take(i as int);
                let post = ds.take(i + 1);
                assert(post.drop_last() =~= pre);
                assert(post.last() == *d);
                assert(min_total(post) == min_total(pre) + d.spec_count());
                assert(max_total(post) == max_total(pre) + d.spec_count() * d.spec_sides());
                assert(total_draws(post, v) == total_draws(pre, v) + d.draws_needed(v));
                d.lemma_count_range();
                if s0.len() >= total_draws(post, v) {
                    assert(before == s0.skip(total_draws(pre, v)));
                    assert(before.len() == s0.len() - total_draws(pre, v));
                    assert(before.skip(d.draws_needed(v)) =~= s0.skip(total_draws(post, v)));
                }
                assert((i + 1) * MAX_ROLL == i * MAX_ROLL + MAX_ROLL);
                assert(i * MAX_ROLL <= 0xffff_ffff_ffff_ffff * MAX_ROLL) by (nonlinear_arith)
                    requires
                        i <= 0xffff_ffff_ffff_ffff,
                ;
            }
            base = base + kept as u128;
            i = i + 1;
        }
        proof {
            assert(ds.take(i as int) =~= ds);
            lemma_sum_bounds(modifiers@);
            assert(base <= 0xffff_ffff_ffff_ffff * MAX_ROLL) by (nonlinear_arith)
                requires
                    base <= i * MAX_ROLL,
                    i <= 0xffff_ffff_ffff_ffff,
            ;
        }
        let n: usize = modifiers.len();
        proof {
            assert(n * 0x8000_0000 <= 0xffff_ffff_ffff_ffff * 0x8000_0000) by (nonlinear_arith)
                requires
                    n <= 0xffff_ffff_ffff_ffff,
            ;
        }
        let combined = combine(modifiers);
        Ok(RollResult::from_parts(base, combined))
    }

    /// The index of the entry that `total` selects: among the entries whose
    /// minimum is at most `total`, the one with the greatest minimum, the
    /// latest declared on a tie. `None` when `total` is below every entry.
    pub fn select_threshold(&self, total: i128) -> (r: Option<usize>)
        ensures
            r is None <==> forall|j: int| !qualifies(self.spec_thresholds(), total as int, j),
            r is Some ==> is_choice(self.spec_thresholds(), total as int, r->Some_0 as int),
    {
        let ghost ts = self.descriptions@;
        let mut best: Option<usize> = None;
        let mut i: usize = 0;
        while i < self.descriptions.len()
            invariant
                ts == self.descriptions@,
                i <= ts.len(),
                best is None ==> forall|j: int| 0 <= j < i ==> !qualifies(ts, total as int, j),
                best is Some ==> {
                    let b = best->Some_0 as int;
                    &&& b < i
                    &&& qualifies(ts, total as int, b)
                    &&& forall|j: int|
                        0 <= j < i && qualifies(ts, total as int, j) ==> ts[j].0 < ts[b].0 || (
                        ts[j].0 == ts[b].0 && j <= b)
                },
            decreases ts.len() - i,
        {
            let m = self.descriptions[i].0;
            if m <= total {
                match best {
                    None => {
                        best = Some(i);
                    },
                    Some(b) => {
                        if m >= self.descriptions[b].0 {
                            best = Some(i);
                        }
                    },
                }
            }
            i = i + 1;
        }
        assert(ts == self.spec_thresholds());
        if let Some(b) = best {
            assert(qualifies(ts, total as int, b as int));
            assert(!(forall|j: int| !qualifies(ts, total as int, j)));
        } else {
            assert forall|j: int| !qualifies(ts, total as int, j) by {
                if 0 <= j < ts.len() {
                    assert(j < i);
                }
            }
        }
        best
    }

    /// The description of the entry that `total` selects (see
    /// `select_threshold`). Fails with `NoMatchingThreshold` when `total`
    /// is below every entry.
    pub fn describe(&self, total: i128) -> (r: Result<String, RollError>)
        ensures
            r is Err <==> forall|j: int| !qualifies(self.spec_thresholds(), total as int, j),
            r is Err ==> r->Err_0 == RollError::NoMatchingThreshold,
            r is Ok ==> exists|i: int|
                is_choice(self.spec_thresholds(), total as int, i) && r->Ok_0@
                    == self.spec_thresholds()[i].1@,
    {
        match self.select_threshold(total) {
            None => Err(RollError::NoMatchingThreshold),
            Some(i) => Ok(self.descriptions[i].1.clone()),
        }
    }
}

} // verus!
