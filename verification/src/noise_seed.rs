use vstd::prelude::*;
use noise::permutationtable::PermutationTable;
use rand::rngs::ThreadRng;
use rand::Rng;

verus! {

/// The permutation table of the noise crate, which seeds the cave's noise.
#[verifier::external_type_specification]
#[verifier::external_body]
pub struct ExPermutationTable(PermutationTable);

/// The random number generator of the current thread, from the rand crate.
#[verifier::external_type_specification]
#[verifier::external_body]
pub struct ExThreadRng(ThreadRng);

/// Seeds of the cave noise are drawn below this bound.
pub const NOISE_SEED_BOUND: u32 = 9999;

/// `rand::thread_rng`: the lazily seeded generator of the current thread.
/// Nothing is claimed of it; it panics where the operating system gives it no
/// seed, which no `requires` can rule out.
#[verifier::external_body]
fn thread_rng() -> ThreadRng {
    rand::thread_rng()
}

/// `rand::Rng::gen_range` over `0..bound`: a value that is below `bound`.
/// The range must not be empty, else the call panics. Which value comes out
/// is chance.
#[verifier::external_body]
fn gen_below(rng: &mut ThreadRng, bound: u32) -> (r: u32)
    requires
        bound > 0,
    ensures
        r < bound,
{
    rng.gen_range(0..bound)
}

/// The table that `noise::permutationtable::PermutationTable::new` makes from
/// `seed`. That function seeds a XorShift generator from the seed alone and
/// shuffles the table with it, so the table is a function of the seed.
pub uninterp spec fn spec_permutation_table(seed: u32) -> PermutationTable;

/// `noise::permutationtable::PermutationTable::new`: the table that the seed
/// determines, named `spec_permutation_table(seed)`. It cannot panic. What the
/// opaque table holds is not stated.
#[verifier::external_body]
fn permutation_table(seed: u32) -> (t: PermutationTable)
    ensures
        t == spec_permutation_table(seed),
{
    PermutationTable::new(seed)
}

/// The noise that shapes the cave: a random seed below the bound and the
/// permutation table made from it.
pub struct HasherData {
    seed: u32,
    hasher: PermutationTable,
}

impl HasherData {
    /// Draws a seed below `NOISE_SEED_BOUND` and makes the noise table from it.
    pub fn random() -> (h: Self)
        ensures
            h.seed() < NOISE_SEED_BOUND,
            h.table() == spec_permutation_table(h.seed()),
    {
        let mut rng = thread_rng();
        let seed = gen_below(&mut rng, NOISE_SEED_BOUND);
        Self::from_seed(seed)
    }

    /// The noise made from `seed`: the seed and the permutation table of the
    /// noise crate for it.
    pub fn from_seed(seed: u32) -> (h: Self)
        ensures
            h.seed() == seed,
            h.table() == spec_permutation_table(seed),
    {
        HasherData { seed, hasher: permutation_table(seed) }
    }

    /// The seed that the table was made from.
    pub closed spec fn seed(&self) -> u32 {
        self.seed
    }

    /// The seed that the table was made from.
    pub fn noise_seed(&self) -> (s: u32)
        ensures
            s == self.seed(),
    {
        self.seed
    }

    /// The noise table that this value holds.
    pub closed spec fn table(&self) -> PermutationTable {
        self.hasher
    }

    /// The noise table: the one that this value holds, the same on every call.
    pub fn hasher(&self) -> (t: &PermutationTable)
        ensures
            *t == self.table(),
    {
        &self.hasher
    }
}

} // verus!
