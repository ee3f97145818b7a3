//! Sources of the random bytes that `CXNN` masks.

use rand::rngs::{OsRng, StdRng};
use rand::{Rng, SeedableRng};
use vstd::prelude::*;

verus! {

/// `rand`'s standard generator, carried through as an opaque value.
#[verifier::external_type_specification]
#[verifier::external_body]
pub struct ExStdRng(rand::rngs::StdRng);

/// The error type of `rand` (re-exported from `rand_core`), carried through
/// as an opaque value.
#[verifier::external_type_specification]
#[verifier::external_body]
pub struct ExRandError(rand::Error);

/// Calls `StdRng::from_rng(OsRng)` (rand 0.8, through `SeedableRng`), which
/// seeds the generator from the operating system and returns an error,
/// rather than panicking, when the operating system cannot supply entropy.
/// Nothing is claimed of the generator, nor of when the call fails: both
/// depend on the operating system.
#[verifier::external_body]
fn std_rng_from_os_entropy() -> Result<StdRng, rand::Error> {
    StdRng::from_rng(OsRng)
}

/// Calls `StdRng::seed_from_u64` (rand 0.8, through `SeedableRng`). The
/// generator it builds depends on `seed` alone, but it is opaque here, so
/// nothing is claimed of it.
#[verifier::external_body]
fn std_rng_seed_from_u64(seed: u64) -> StdRng {
    StdRng::seed_from_u64(seed)
}

/// Calls `Rng::gen_range(0..=255)` on the generator (rand 0.8), which draws a
/// byte from the whole range. Nothing is claimed of which byte: any `u8` may
/// come back, and the generator's state advances.
#[verifier::external_body]
fn std_rng_gen_byte(rng: &mut StdRng) -> u8 {
    rng.gen_range(0..=255)
}

/// A source of random bytes for `CXNN`. Implement it to inject a known
/// sequence in place of real entropy.
pub trait RandSource {
    /// Whether `b` may be the next byte this source hands out.
    spec fn may_yield(&self, b: u8) -> bool;

    /// The seed this source was built from, if it was built from one.
    spec fn seed(&self) -> Option<u64>;

    fn next_byte(&mut self) -> (b: u8)
        ensures
            old(self).may_yield(b),
    ;
}

/// Random bytes from `rand`'s standard generator.
pub struct StdRandSource {
    rng: StdRng,
    seeded_with: Ghost<Option<u64>>,
}

impl StdRandSource {
    /// A generator seeded from operating-system entropy, or `None` where the
    /// operating system cannot supply it.
    pub fn from_entropy() -> (s: Option<Self>)
        ensures
            s matches Some(s) ==> s.seed() is None,
    {
        match std_rng_from_os_entropy() {
            Ok(rng) => Some(StdRandSource { rng, seeded_with: Ghost(None) }),
            Err(_) => None,
        }
    }

    /// A generator seeded from `seed`.
    pub fn from_seed(seed: u64) -> (s: Self)
        ensures
            s.seed() == Some(seed),
    {
        StdRandSource { rng: std_rng_seed_from_u64(seed), seeded_with: Ghost(Some(seed)) }
    }
}

impl RandSource for StdRandSource {
    /// Any byte may come from the generator.
    open spec fn may_yield(&self, b: u8) -> bool {
        true
    }

    closed spec fn seed(&self) -> Option<u64> {
        self.seeded_with@
    }

    fn next_byte(&mut self) -> (b: u8)
        ensures
            final(self).seed() == old(self).seed(),
    {
        std_rng_gen_byte(&mut self.rng)
    }
}

/// Returns the bytes of a fixed, non-empty list in order, starting over after
/// the last one.
/// Where a `FixedRandSource` stands: the index of the next byte, and how
/// many bytes have been handed out.
struct Cursor {
    idx: usize,
    drawn: Ghost<nat>,
}

pub struct FixedRandSource {
    values: Vec<u8>,
    cursor: Cursor,
}

impl FixedRandSource {
    #[verifier::type_invariant]
    spec fn inv(self) -> bool {
        &&& self.values.len() > 0
        &&& self.cursor.idx == self.cursor.drawn@ % (self.values.len() as nat)
    }

    /// The bytes that are handed out, in order.
    pub closed spec fn values(&self) -> Seq<u8> {
        self.values@
    }

    /// How many bytes have been handed out so far.
    pub closed spec fn draws(&self) -> nat {
        self.cursor.drawn@
    }

    /// A source that cycles through `values`; `values` must not be empty.
    pub fn new(values: Vec<u8>) -> (s: Self)
        requires
            values.len() > 0,
        ensures
            s.values() == values@,
            s.draws() == 0,
    {
        proof {
            vstd::arithmetic::div_mod::lemma_small_mod(0, values.len() as nat);
        }
        FixedRandSource { values, cursor: Cursor { idx: 0, drawn: Ghost(0) } }
    }
}

impl RandSource for FixedRandSource {
    /// The next byte is the one at the current draw count, wrapping.
    open spec fn may_yield(&self, b: u8) -> bool {
        b == self.values()[(self.draws() % self.values().len()) as int]
    }

    /// A fixed list is not built from a seed.
    open spec fn seed(&self) -> Option<u64> {
        None
    }

    /// Hands out the bytes of the list in order, starting over after the
    /// last: the call that follows `k` earlier ones returns
    /// `values()[k % values().len()]`.
    fn next_byte(&mut self) -> (b: u8)
        ensures
            final(self).values() == old(self).values(),
            b == old(self).values()[(old(self).draws() % old(self).values().len()) as int],
            final(self).draws() == old(self).draws() + 1,
    {
        proof {
            use_type_invariant(&*self);
        }
        let ghost len = self.values.len() as int;
        let ghost d = self.cursor.drawn@ as int;
        let idx = self.cursor.idx;
        let v = self.values[idx];
        proof {
            vstd::arithmetic::div_mod::lemma_fundamental_div_mod(d, len);
        }
        let next = if idx + 1 == self.values.len() {
            proof {
                assert((d / len + 1) * len == len * (d / len) + len) by (nonlinear_arith);
                vstd::arithmetic::div_mod::lemma_fundamental_div_mod_converse_mod(
                    d + 1,
                    len,
                    d / len + 1,
                    0,
                );
            }
            0
        } else {
            proof {
                vstd::arithmetic::div_mod::lemma_fundamental_div_mod_converse_mod(
                    d + 1,
                    len,
                    d / len,
                    idx + 1,
                );
            }
            idx + 1
        };
        self.cursor = Cursor { idx: next, drawn: Ghost((d + 1) as nat) };
        v
    }
}

} // verus!
