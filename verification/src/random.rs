//! The pseudo-random generator that exercises are drawn from.
//!
//! The generator is `rand_pcg::Pcg64`. Nothing here is proved: each function
//! states what the generator's crates do, and the drawing of a batch is proved
//! against these statements.

use rand::seq::IteratorRandom;
use rand::Rng;
use rand::SeedableRng;
use rand_pcg::Lcg128Xsl64;
use vstd::prelude::*;

verus! {

/// The generator, which `rand_pcg` also calls `Pcg64`.
#[verifier::external_type_specification]
#[verifier::external_body]
pub struct ExLcg128Xsl64(Lcg128Xsl64);

/// What a generator holds: its state and its increment.
pub uninterp spec fn generator_state(rng: Lcg128Xsl64) -> (nat, nat);

/// What a generator holds when it has just been seeded.
pub uninterp spec fn seeded_state(seed: u64) -> (nat, nat);

/// The `u8` drawn from `low..high` by a generator that holds `state`, and what
/// the generator holds afterwards.
pub uninterp spec fn small_draw(state: (nat, nat), low: u8, high: u8) -> (u8, (nat, nat));

/// The `u64` drawn from `low..high` by a generator that holds `state`, and
/// what the generator holds afterwards.
pub uninterp spec fn wide_draw(state: (nat, nat), low: u64, high: u64) -> (u64, (nat, nat));

/// The character picked from a text by a generator that holds `state`, and
/// what the generator holds afterwards.
pub uninterp spec fn char_draw(state: (nat, nat), text: Seq<char>) -> (char, (nat, nat));

/// Calls `SeedableRng::seed_from_u64` for `Pcg64`. The seed alone decides
/// what the generator holds.
#[verifier::external_body]
pub(crate) fn seed_generator(seed: u64) -> (rng: Lcg128Xsl64)
    ensures
        generator_state(rng) == seeded_state(seed),
{
    Lcg128Xsl64::seed_from_u64(seed)
}

/// Calls `Rng::gen_range` for a `u8` with the half-open range `low..high`.
/// The crate panics on an empty range, which `requires` leaves out, and
/// returns a value of the range; the value and the generator's next state
/// depend on its state and the range alone.
#[verifier::external_body]
pub(crate) fn draw_small(rng: &mut Lcg128Xsl64, low: u8, high: u8) -> (r: u8)
    requires
        low < high,
    ensures
        low <= r < high,
        r == small_draw(generator_state(*old(rng)), low, high).0,
        generator_state(*final(rng)) == small_draw(generator_state(*old(rng)), low, high).1,
{
    rng.gen_range(low..high)
}

/// Calls `Rng::gen_range` for a `u64` with the half-open range `low..high`,
/// with the same claims as for a `u8`.
#[verifier::external_body]
pub(crate) fn draw_wide(rng: &mut Lcg128Xsl64, low: u64, high: u64) -> (r: u64)
    requires
        low < high,
    ensures
        low <= r < high,
        r == wide_draw(generator_state(*old(rng)), low, high).0,
        generator_state(*final(rng)) == wide_draw(generator_state(*old(rng)), low, high).1,
{
    rng.gen_range(low..high)
}

/// Calls `IteratorRandom::choose` on the characters of a text. The crate
/// returns `None` if and only if the iterator is empty, and otherwise one of
/// its items; which one, and the generator's next state, depend on the
/// generator's state and the text alone.
#[verifier::external_body]
pub(crate) fn choose_char(rng: &mut Lcg128Xsl64, text: &str) -> (r: Option<char>)
    ensures
        text@.len() == 0 ==> r is None,
        text@.len() > 0 ==> r == Some(char_draw(generator_state(*old(rng)), text@).0)
            && text@.contains(char_draw(generator_state(*old(rng)), text@).0),
        generator_state(*final(rng)) == char_draw(generator_state(*old(rng)), text@).1,
{
    text.chars().choose(rng)
}

} // verus!
