use vstd::prelude::*;
use crate::error::RollError;
use crate::modifier::apply_modifier;
use crate::modifier::Modifier;
use crate::modifier::RollResult;
use crate::roller::face;
use crate::roller::Roller;

verus! {

/// Largest value one roll can reach: `u32::MAX` dice of 255 sides.
pub const MAX_ROLL: u64 = 0xfe_ffff_ff01;

/// Whether a roll is made once, or twice keeping the higher or the lower.
#[derive(Clone, Copy, Debug, PartialEq, Eq, Structural)]
pub enum Vantage {
    /// One roll.
    Plain,
    /// Two full rolls; the higher one is kept.
    Advantage,
    /// Two full rolls; the lower one is kept.
    Disadvantage,
}

/// The base value that `vantage` keeps out of two rolls.
pub open spec fn pick_spec(vantage: Vantage, first: int, second: int) -> int {
    match vantage {
        Vantage::Plain => first,
        Vantage::Advantage => if first >= second { first } else { second },
        Vantage::Disadvantage => if first <= second { first } else { second },
    }
}

/// Keeps one of two rolls by the vantage policy: the first for a plain roll,
/// the larger under advantage, the smaller under disadvantage.
pub fn pick(vantage: Vantage, first: u64, second: u64) -> (r: u64)
    ensures
        r == pick_spec(vantage, first as int, second as int),
{
    match vantage {
        Vantage::Plain => first,
        Vantage::Advantage => if first >= second { first } else { second },
        Vantage::Disadvantage => if first <= second { first } else { second },
    }
}

/// Under advantage the kept value is at least each of the two rolls; under
/// disadvantage it is at most each of them. Either way it is one of them.
pub proof fn lemma_vantage_bounds(first: int, second: int)
    ensures
        pick_spec(Vantage::Advantage, first, second) >= first,
        pick_spec(Vantage::Advantage, first, second) >= second,
        pick_spec(Vantage::Disadvantage, first, second) <= first,
        pick_spec(Vantage::Disadvantage, first, second) <= second,
        pick_spec(Vantage::Advantage, first, second) == first
            || pick_spec(Vantage::Advantage, first, second) == second,
        pick_spec(Vantage::Disadvantage, first, second) == first
            || pick_spec(Vantage::Disadvantage, first, second) == second,
{
}

/// The sum of the faces that scripted draws `s` show on dice with `sides`
/// sides.
pub open spec fn sum_faces(s: Seq<u8>, sides: u8) -> int
    decreases s.len(),
{
    if s.len() == 0 {
        0
    } else {
        sum_faces(s.drop_last(), sides) + face(s.last(), sides)
    }
}

/// A roll shape: `count` dice with `sides` sides each (`2d6`, `1d20`).
pub struct Dice {
    count: u32,
    sides: u8,
}

impl Dice {
    #[verifier::type_invariant]
    spec fn valid(&self) -> bool {
        self.count >= 1 && self.sides >= 2
    }

    pub closed spec fn spec_count(&self) -> int {
        self.count as int
    }

    /// The number of dice fits in a `u32`.
    pub proof fn lemma_count_range(&self)
        ensures
            0 <= self.spec_count() <= u32::MAX,
    {
    }

    pub closed spec fn spec_sides(&self) -> u8 {
        self.sides
    }

    /// How many scripted draws one resolution under `vantage` uses.
    pub open spec fn draws_needed(&self, vantage: Vantage) -> int {
        match vantage {
            Vantage::Plain => self.spec_count(),
            _ => 2 * self.spec_count(),
        }
    }

    /// The base value that scripted draws `s` give under `vantage`, when `s`
    /// holds at least `draws_needed(vantage)` draws.
    pub open spec fn scripted_base(&self, vantage: Vantage, s: Seq<u8>) -> int {
        let n = self.spec_count();
        let first = sum_faces(s.take(n), self.spec_sides());
        let second = sum_faces(s.skip(n).take(n), self.spec_sides());
        pick_spec(vantage, first, second)
    }

    /// Fails with `InvalidDice` when there are no dice or fewer than two
    /// sides.
    pub fn new(count: u32, sides: u8) -> (r: Result<Dice, RollError>)
        ensures
            (count == 0 || sides < 2) <==> r is Err,
            r is Err ==> r->Err_0 == RollError::InvalidDice,
            r is Ok ==> r->Ok_0.spec_count() == count && r->Ok_0.spec_sides() == sides,
    {
        if count == 0 || sides < 2 {
            Err(RollError::InvalidDice)
        } else {
            Ok(Dice { count, sides })
        }
    }

    pub fn count(&self) -> (r: u32)
        ensures
            r == self.spec_count(),
            r >= 1,
    {
        proof {
            use_type_invariant(self);
        }
        self.count
    }

    pub fn sides(&self) -> (r: u8)
        ensures
            r == self.spec_sides(),
            r >= 2,
    {
        proof {
            use_type_invariant(self);
        }
        self.sides
    }

    /// Rolls every die once and sums the faces.
    pub fn roll_once(&self, roller: &mut Roller) -> (r: u64)
        ensures
            self.spec_count() <= r <= self.spec_count() * self.spec_sides(),
            r <= MAX_ROLL,
            old(roller).pending().len() >= self.spec_count() ==> r == sum_faces(
                old(roller).pending().take(self.spec_count()),
                self.spec_sides(),
            ) && final(roller).pending() == old(roller).pending().skip(self.spec_count()),
            old(roller).pending().len() < self.spec_count() ==> final(roller).pending().len()
                == 0,
    {
        proof {
            use_type_invariant(self);
        }
        let ghost s0 = roller.pending();
        let mut total: u64 = 0;
        let mut i: u32 = 0;
        while i < self.count
            invariant
                self.count >= 1,
                self.sides >= 2,
                i <= self.count,
                i <= total <= i * self.sides,
                s0.len() >= i ==> total == sum_faces(s0.take(i as int), self.sides)
                    && roller.pending() == s0.skip(i as int),
                s0.len() < i ==> roller.pending().len() == 0,
            decreases self.count - i,
        {
            let ghost before = roller.pending();
            let f = roller.draw(self.sides);
            proof {
                assert(total <= 0xffff_ffff * 0xff) by (nonlinear_arith)
                    requires
                        total <= i * self.sides,
                        i <= 0xffff_ffff,
                        self.sides <= 0xff,
                ;
                assert((i + 1) * self.sides == i * self.sides + self.sides) by (nonlinear_arith);
                if s0.len() >= i + 1 {
                    assert(before.len() > 0);
                    assert(before[0] == s0[i as int]);
                    assert(s0.take(i + 1).drop_last() =~= s0.take(i as int));
                    assert(s0.skip(i as int).drop_first() =~= s0.skip(i + 1));
                }
            }
            total = total + f as u64;
            i = i + 1;
        }
        proof {
            assert(total <= 0xffff_ffff * 0xff) by (nonlinear_arith)
                requires
                    total <= i * self.sides,
                    i <= 0xffff_ffff,
                    self.sides <= 0xff,
            ;
        }
        total
    }

    /// Resolves the dice under `vantage`: one roll when plain, else two full
    /// rolls of which the higher (advantage) or lower (disadvantage) is kept.
    pub fn vantage_roll(&self, vantage: Vantage, roller: &mut Roller) -> (r: u64)
        ensures
            self.spec_count() <= r <= self.spec_count() * self.spec_sides(),
            r <= MAX_ROLL,
            old(roller).pending().len() >= self.draws_needed(vantage) ==> r == self.scripted_base(
                vantage,
                old(roller).pending(),
            ) && final(roller).pending() == old(roller).pending().skip(
                self.draws_needed(vantage),
            ),
            old(roller).pending().len() < self.draws_needed(vantage)
                ==> final(roller).pending().len() == 0,
    {
        let ghost s0 = roller.pending();
        proof {
            use_type_invariant(self);
        }
        let first = self.roll_once(roller);
        match vantage {
            Vantage::Plain => first,
            _ => {
                let ghost s1 = roller.pending();
                let second = self.roll_once(roller);
                proof {
                    let n = self.spec_count();
                    if s0.len() >= 2 * n {
                        assert(s1 == s0.skip(n));
                        assert(s0.skip(n).skip(n) =~= s0.skip(2 * n));
                    }
                }
                pick(vantage, first, second)
            },
        }
    }

    /// Rolls under `vantage`, then adds `modifier` once to the kept roll.
    pub fn roll(&self, vantage: Vantage, modifier: Modifier, roller: &mut Roller) -> (r:
        RollResult)
        ensures
            self.spec_count() <= r.spec_base() <= self.spec_count() * self.spec_sides(),
            r.spec_total() == r.spec_base() + modifier.spec_value(),
            r.spec_applied() == seq![modifier],
            old(roller).pending().len() >= self.draws_needed(vantage) ==> r.spec_base()
                == self.scripted_base(vantage, old(roller).pending()) && final(roller).pending()
                == old(roller).pending().skip(self.draws_needed(vantage)),
    {
        let base = self.vantage_roll(vantage, roller);
        apply_modifier(base, modifier)
    }

    /// A plain roll with `modifier` added.
    pub fn modifier_roll(&self, modifier: Modifier, roller: &mut Roller) -> (r: RollResult)
        ensures
            self.spec_count() <= r.spec_base() <= self.spec_count() * self.spec_sides(),
            r.spec_total() == r.spec_base() + modifier.spec_value(),
            r.spec_applied() == seq![modifier],
            old(roller).pending().len() >= self.spec_count() ==> r.spec_base() == sum_faces(
                old(roller).pending().take(self.spec_count()),
                self.spec_sides(),
            ) && final(roller).pending() == old(roller).pending().skip(self.spec_count()),
    {
        self.roll(Vantage::Plain, modifier, roller)
    }
}

} // verus!
