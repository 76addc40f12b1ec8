use vstd::prelude::*;

verus! {

/// The random-number source each context owns.
#[verifier::external_type_specification]
#[verifier::external_body]
pub struct ExSmallRng(rand::rngs::SmallRng);

/// Relies on rand::SeedableRng::seed_from_u64: builds a generator from a seed.
#[verifier::external_body]
pub fn new_rng(seed: u64) -> (r: rand::rngs::SmallRng) {
    <rand::rngs::SmallRng as rand::SeedableRng>::seed_from_u64(seed)
}

/// Relies on rand::Rng::gen_range(low, high): returns a uniform sample in
/// [low, high); panics when low >= high, which the precondition rules out.
#[verifier::external_body]
pub fn rng_below(rng: &mut rand::rngs::SmallRng, n: u32) -> (r: u32)
    requires
        n >= 1,
    ensures
        r < n,
{
    rand::Rng::gen_range(rng, 0, n)
}

/// Relies on rand::Rng::gen_range(low, high): returns a uniform sample in
/// [low, high); panics when low >= high, which the precondition rules out.
#[verifier::external_body]
pub fn rng_range_i32(rng: &mut rand::rngs::SmallRng, low: i32, high: i32) -> (r: i32)
    requires
        low < high,
    ensures
        low <= r < high,
{
    rand::Rng::gen_range(rng, low, high)
}

/// Relies on rand::RngCore::next_u64: returns 64 uniform random bits.
#[verifier::external_body]
pub fn rng_u64(rng: &mut rand::rngs::SmallRng) -> (r: u64) {
    rand::RngCore::next_u64(rng)
}

/// The number of set bits in `x`.
fn popcount64(x: u64) -> (c: u32)
    ensures
        c <= 64,
{
    let mut v: u64 = x;
    let mut c: u32 = 0;
    let mut i: u32 = 0;
    while i < 64
        invariant
            i <= 64,
            c <= i,
        decreases 64 - i,
    {
        let bit: u64 = v & 1;
        assert(v & 1 <= 1) by (bit_vector);
        c += bit as u32;
        v = v >> 1u64;
        i += 1;
    }
    c
}

/// An approximately normal random offset with standard deviation `scale`:
/// the centred popcount of 1024 random bits follows Binomial(1024, 1/2),
/// whose normalisation (deviation 16) closely tracks a standard normal.
pub fn normal_offset(rng: &mut rand::rngs::SmallRng, scale: i32) -> (r: i32)
    requires
        0 <= scale <= 0xffff,
    ensures
        -32 * scale <= r <= 32 * scale,
{
    let mut pop: u32 = 0;
    let mut k: u32 = 0;
    while k < 16
        invariant
            k <= 16,
            pop <= 64 * k,
        decreases 16 - k,
    {
        let bits = rng_u64(rng);
        pop += popcount64(bits);
        k += 1;
    }
    let centered: i32 = pop as i32 - 512;
    assert(-512 * scale <= centered * scale <= 512 * scale) by (nonlinear_arith)
        requires
            -512 <= centered <= 512 && 0 <= scale <= 0xffff,
    ;
    let scaled: i32 = centered * scale;
    let r = scaled / 16;
    assert(-32 * scale <= scaled / 16 <= 32 * scale) by (nonlinear_arith)
        requires
            -512 * scale <= scaled <= 512 * scale && 0 <= scale,
    ;
    r
}

} // verus!
