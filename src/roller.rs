use rand::rngs::StdRng;
use rand::Rng;
use rand::SeedableRng;
use vstd::prelude::*;

verus! {

#[verifier::external_type_specification]
#[verifier::external_body]
pub struct ExStdRng(StdRng);

/// Relies on `SeedableRng::from_entropy` for `StdRng`: a generator seeded
/// from the operating system's entropy source.
#[verifier::external_body]
fn entropy_rng() -> StdRng {
    StdRng::from_entropy()
}

/// Relies on `SeedableRng::seed_from_u64` for `StdRng`: a generator whose
/// output is fixed by the seed.
#[verifier::external_body]
fn seeded_rng(seed: u64) -> StdRng {
    StdRng::seed_from_u64(seed)
}

/// Relies on `Rng::gen_range` over the inclusive range `1..=sides`: it
/// returns a value inside the range, and panics only on an empty range.
#[verifier::external_body]
fn gen_face(rng: &mut StdRng, sides: u8) -> (r: u8)
    requires
        sides >= 1,
    ensures
        1 <= r <= sides,
{
    rng.gen_range(1..=sides)
}

/// The face shown by a die with `sides` sides for a scripted draw `v`:
/// `v` itself when it fits the die, else the nearest face.
pub open spec fn face(v: u8, sides: u8) -> int {
    if v < 1 {
        1
    } else if v > sides {
        sides as int
    } else {
        v as int
    }
}

/// The source of die faces. Scripted draws, when given, are used first and
/// in order; once they run out the faces come from a random generator.
pub struct Roller {
    rng: StdRng,
    script: Vec<u8>,
    next: usize,
}

impl Roller {
    /// The scripted draws that have not been used yet.
    pub closed spec fn pending(&self) -> Seq<u8> {
        if self.next <= self.script.len() {
            self.script@.subrange(self.next as int, self.script.len() as int)
        } else {
            Seq::empty()
        }
    }

    /// A roller that draws from a generator seeded by the operating system.
    pub fn new() -> (r: Roller)
        ensures
            r.pending().len() == 0,
    {
        Roller { rng: entropy_rng(), script: Vec::new(), next: 0 }
    }

    /// A roller whose random draws are reproducible from `seed`.
    pub fn seeded(seed: u64) -> (r: Roller)
        ensures
            r.pending().len() == 0,
    {
        Roller { rng: seeded_rng(seed), script: Vec::new(), next: 0 }
    }

    /// A roller that hands out `draws` first, in order.
    pub fn scripted(draws: Vec<u8>) -> (r: Roller)
        ensures
            r.pending() == draws@,
    {
        let r = Roller { rng: entropy_rng(), script: draws, next: 0 };
        assert(r.pending() =~= r.script@);
        r
    }

    /// One face of a die with `sides` sides.
    pub fn draw(&mut self, sides: u8) -> (r: u8)
        requires
            sides >= 1,
        ensures
            1 <= r <= sides,
            old(self).pending().len() > 0 ==> r == face(old(self).pending()[0], sides)
                && final(self).pending() == old(self).pending().drop_first(),
            old(self).pending().len() == 0 ==> final(self).pending().len() == 0,
    {
        if self.next < self.script.len() {
            let v = self.script[self.next];
            self.next = self.next + 1;
            assert(self.pending() =~= old(self).pending().drop_first());
            if v < 1 {
                1
            } else if v > sides {
                sides
            } else {
                v
            }
        } else {
            gen_face(&mut self.rng, sides)
        }
    }
}

} // verus!
