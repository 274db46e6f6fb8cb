use vstd::prelude::*;

verus! {

/// The source of a bonus or penalty, kept for display and audit.
#[derive(Clone, Copy, Debug, PartialEq, Eq, Structural)]
pub enum ModifierType {
    Ability,
    Proficiency,
    Situational,
    Item,
}

/// A signed adjustment to a roll, tagged with where it comes from.
#[derive(Clone, Copy, Debug, PartialEq, Eq, Structural)]
pub struct Modifier {
    value: i32,
    modifier_type: ModifierType,
}

/// Largest base value that a roll result can carry (`2^112`).
pub const MAX_BASE: u128 = 0x1_0000_0000_0000_0000_0000_0000_0000;

/// Largest magnitude of a combined modifier sum (`2^31 * 2^64`).
pub const MAX_SUM: i128 = 0x8000_0000_0000_0000_0000_0000;

impl Modifier {
    pub closed spec fn spec_value(&self) -> int {
        self.value as int
    }

    pub closed spec fn spec_type(&self) -> ModifierType {
        self.modifier_type
    }

    pub fn new(value: i32, modifier_type: ModifierType) -> (r: Modifier)
        ensures
            r.spec_value() == value,
            r.spec_type() == modifier_type,
    {
        Modifier { value, modifier_type }
    }

    pub fn value(&self) -> (r: i32)
        ensures
            r == self.spec_value(),
    {
        self.value
    }

    pub fn modifier_type(&self) -> (r: ModifierType)
        ensures
            r == self.spec_type(),
    {
        self.modifier_type
    }

    /// Every modifier value lies in the range of `i32`.
    pub proof fn lemma_value_range(&self)
        ensures
            i32::MIN <= self.spec_value() <= i32::MAX,
    {
    }
}

/// The sum of the values of a sequence of modifiers.
pub open spec fn sum_values(s: Seq<Modifier>) -> int
    decreases s.len(),
{
    if s.len() == 0 {
        0
    } else {
        sum_values(s.drop_last()) + s.last().spec_value()
    }
}

/// What `combine` hands back for `m`: the sum of the values, and the
/// modifiers themselves in the order given.
pub open spec fn is_combination(m: Seq<Modifier>, sum: int, provenance: Seq<Modifier>) -> bool {
    sum == sum_values(m) && provenance == m
}

/// The sum of a sequence of modifiers grows by at most `2^31` per element.
pub proof fn lemma_sum_bounds(s: Seq<Modifier>)
    ensures
        -(s.len() * 0x8000_0000) <= sum_values(s) <= s.len() * 0x8000_0000,
    decreases s.len(),
{
    if s.len() > 0 {
        lemma_sum_bounds(s.drop_last());
        s.last().lemma_value_range();
    }
}

/// Summing the modifiers of two lists one after the other gives the sum of
/// the two sums: combination may be split at any point.
pub proof fn lemma_sum_concat(a: Seq<Modifier>, b: Seq<Modifier>)
    ensures
        sum_values(a + b) == sum_values(a) + sum_values(b),
    decreases b.len(),
{
    if b.len() == 0 {
        assert(a + b =~= a);
    } else {
        lemma_sum_concat(a, b.drop_last());
        assert((a + b).drop_last() =~= a + b.drop_last());
    }
}

/// Combining no modifiers gives a sum of zero and an empty provenance.
pub proof fn lemma_combine_empty(sum: int, provenance: Seq<Modifier>)
    requires
        is_combination(Seq::empty(), sum, provenance),
    ensures
        sum == 0,
        provenance.len() == 0,
{
}

/// Combining two modifiers lists them in the order given, and the sum of a
/// concatenation is the sum of the sums of its parts.
pub proof fn lemma_combine_order(
    m1: Modifier,
    m2: Modifier,
    sum: int,
    provenance: Seq<Modifier>,
)
    requires
        is_combination(seq![m1, m2], sum, provenance),
    ensures
        provenance == seq![m1, m2],
        sum == m1.spec_value() + m2.spec_value(),
{
    assert(seq![m1, m2].drop_last() =~= seq![m1]);
    assert(seq![m1].drop_last() =~= Seq::<Modifier>::empty());
    assert(sum_values(Seq::<Modifier>::empty()) == 0);
    assert(seq![m1].last() == m1);
    assert(seq![m1, m2].last() == m2);
    assert(sum_values(seq![m1]) == m1.spec_value());
}

/// Combining two lists in sequence agrees with combining their
/// concatenation: provenance is concatenated and sums add up.
pub proof fn lemma_combine_concat(
    a: Seq<Modifier>,
    b: Seq<Modifier>,
    sa: int,
    pa: Seq<Modifier>,
    sb: int,
    pb: Seq<Modifier>,
)
    requires
        is_combination(a, sa, pa),
        is_combination(b, sb, pb),
    ensures
        is_combination(a + b, sa + sb, pa + pb),
{
    lemma_sum_concat(a, b);
}

/// Combining the same list twice gives the same sum and the same provenance.
pub proof fn lemma_combine_deterministic(
    m: Seq<Modifier>,
    s1: int,
    p1: Seq<Modifier>,
    s2: int,
    p2: Seq<Modifier>,
)
    requires
        is_combination(m, s1, p1),
        is_combination(m, s2, p2),
    ensures
        s1 == s2,
        p1 == p2,
{
}

/// Sums the values of `modifiers` and keeps the modifiers, in input order,
/// as provenance.
pub fn combine(modifiers: &Vec<Modifier>) -> (r: (i128, Vec<Modifier>))
    ensures
        is_combination(modifiers@, r.0 as int, r.1@),
{
    let mut sum: i128 = 0;
    let mut provenance: Vec<Modifier> = Vec::new();
    let mut i: usize = 0;
    while i < modifiers.len()
        invariant
            i <= modifiers.len(),
            sum == sum_values(modifiers@.take(i as int)),
            provenance@ == modifiers@.take(i as int),
        decreases modifiers.len() - i,
    {
        let m = modifiers[i];
        proof {
            assert(modifiers@.take(i + 1).drop_last() =~= modifiers@.take(i as int));
            lemma_sum_bounds(modifiers@.take(i + 1));
        }
        sum = sum + m.value as i128;
        provenance.push(m);
        i = i + 1;
        assert(provenance@ =~= modifiers@.take(i as int));
    }
    assert(modifiers@.take(i as int) =~= modifiers@);
    (sum, provenance)
}

/// The outcome of one resolution: the total, the base value rolled before
/// any modifier, and the modifiers that were applied, in order.
pub struct RollResult {
    total: i128,
    base_value: u128,
    applied_modifiers: Vec<Modifier>,
}

impl RollResult {
    pub closed spec fn spec_total(&self) -> int {
        self.total as int
    }

    pub closed spec fn spec_base(&self) -> int {
        self.base_value as int
    }

    pub closed spec fn spec_applied(&self) -> Seq<Modifier> {
        self.applied_modifiers@
    }

    /// Builds a result from a base value and a combination of modifiers.
    pub(crate) fn from_parts(base_value: u128, combined: (i128, Vec<Modifier>)) -> (r: RollResult)
        requires
            base_value <= MAX_BASE,
            -MAX_SUM <= combined.0 <= MAX_SUM,
        ensures
            r.spec_base() == base_value,
            r.spec_total() == base_value + combined.0,
            r.spec_applied() == combined.1@,
    {
        let (sum, applied_modifiers) = combined;
        RollResult { total: base_value as i128 + sum, base_value, applied_modifiers }
    }

    pub fn total(&self) -> (r: i128)
        ensures
            r == self.spec_total(),
    {
        self.total
    }

    pub fn base_value(&self) -> (r: u128)
        ensures
            r == self.spec_base(),
    {
        self.base_value
    }

    pub fn applied_modifiers(&self) -> (r: &Vec<Modifier>)
        ensures
            r@ == self.spec_applied(),
    {
        &self.applied_modifiers
    }
}

/// Adds one modifier to a base roll.
pub fn apply_modifier(base: u64, modifier: Modifier) -> (r: RollResult)
    ensures
        r.spec_base() == base,
        r.spec_total() == base + modifier.spec_value(),
        r.spec_applied() == seq![modifier],
{
    let mut applied: Vec<Modifier> = Vec::new();
    applied.push(modifier);
    RollResult::from_parts(base as u128, (modifier.value as i128, applied))
}

} // verus!
