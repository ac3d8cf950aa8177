//! Monte Carlo estimation of pi by sampling the unit square.
//!
//! Points are drawn uniformly from a 2^53 by 2^53 grid over the unit square
//! and tested for membership in the quarter disc of radius one. All arithmetic
//! is exact: coordinates are grid numerators and the estimate is reported in
//! fixed point.

use rand::rngs::ThreadRng;
use rand::Rng;
use rayon::iter::IntoParallelIterator;
use rayon::iter::ParallelIterator;
use std::time::Duration;
use std::time::Instant;
use vstd::prelude::*;

verus! {

/// Number of samples that one worker processes as a unit.
pub const CHUNK_SIZE: u64 = 1_000_000;

/// Number of grid steps along each side of the unit square (2^53).
pub const GRID: u64 = 0x20_0000_0000_0000;

/// One unit of the fixed-point representation of estimates and errors: a
/// stored value `v` stands for the number `v / FIXED_ONE`.
pub const FIXED_ONE: u64 = 1_000_000_000_000_000;

/// Pi in fixed point, rounded to the nearest representable value.
pub const FIXED_PI: u64 = 3_141_592_653_589_793;

/// Makes `rand::rngs::ThreadRng`, the handle to a thread's generator, known
/// as an opaque type.
#[verifier::external_type_specification]
#[verifier::external_body]
pub struct ExThreadRng(ThreadRng);

/// `rand::thread_rng` hands out the calling thread's generator, which is
/// seeded from the operating system separately for every thread. Nothing is
/// claimed about the generator's state.
pub assume_specification[ rand::thread_rng ]() -> (rng: ThreadRng);

/// Draws 64 uniformly distributed bits with `Rng::gen`. The outcome is
/// random, so nothing is claimed about it: callers are verified for every
/// value that may come back.
#[verifier::external_body]
fn draw_bits(rng: &mut ThreadRng) -> (bits: u64) {
    rng.gen::<u64>()
}

/// The grid coordinate encoded by 64 random bits: their 53 most significant
/// bits, a numerator over `GRID` of a number in `[0, 1)`.
pub open spec fn grid_coordinate(bits: u64) -> nat {
    (bits / 2048) as nat
}

/// Whether the grid point `(x / GRID, y / GRID)` lies in the closed quarter
/// disc of radius one around the origin.
pub open spec fn in_quarter_disc(x: nat, y: nat) -> bool {
    x * x + y * y <= GRID * GRID
}

/// Decides whether the point encoded by two 64-bit draws falls inside the
/// quarter disc.
pub fn point_is_inside(x_bits: u64, y_bits: u64) -> (inside: bool)
    ensures
        inside == in_quarter_disc(grid_coordinate(x_bits), grid_coordinate(y_bits)),
{
    let x: u128 = (x_bits >> 11) as u128;
    let y: u128 = (y_bits >> 11) as u128;
    assert(x_bits >> 11 == x_bits / 2048) by (bit_vector);
    assert(y_bits >> 11 == y_bits / 2048) by (bit_vector);
    assert(x * x <= 0x1f_ffff_ffff_ffff * 0x1f_ffff_ffff_ffff) by (nonlinear_arith)
        requires
            x <= 0x1f_ffff_ffff_ffff,
    ;
    assert(y * y <= 0x1f_ffff_ffff_ffff * 0x1f_ffff_ffff_ffff) by (nonlinear_arith)
        requires
            y <= 0x1f_ffff_ffff_ffff,
    ;
    let radius: u128 = GRID as u128;
    x * x + y * y <= radius * radius
}

/// Samples `size` points with the calling thread's own generator and counts
/// those inside the quarter disc.
pub fn sample_chunk(size: u64) -> (inside: u64)
    ensures
        inside <= size,
{
    let mut rng = rand::thread_rng();
    let mut count: u64 = 0;
    let mut drawn: u64 = 0;
    while drawn < size
        invariant
            count <= drawn <= size,
        decreases size - drawn,
    {
        let x_bits = draw_bits(&mut rng);
        let y_bits = draw_bits(&mut rng);
        if point_is_inside(x_bits, y_bits) {
            count += 1;
        }
        drawn += 1;
    }
    count
}

/// How a sampling request is divided among workers.
#[derive(Debug, Clone, Copy, PartialEq, Eq, Structural)]
pub struct ChunkPlan {
    /// Number of chunks of exactly `CHUNK_SIZE` samples.
    pub full_chunks: u64,
    /// Size of the final, shorter chunk; zero when there is none.
    pub remainder: u64,
}

/// Divides `iterations` samples into full chunks and one remainder chunk.
pub fn plan_chunks(iterations: u64) -> (plan: ChunkPlan)
    ensures
        plan.full_chunks == iterations / CHUNK_SIZE,
        plan.remainder == iterations % CHUNK_SIZE,
        plan.full_chunks * CHUNK_SIZE + plan.remainder == iterations,
        plan.remainder < CHUNK_SIZE,
{
    ChunkPlan { full_chunks: iterations / CHUNK_SIZE, remainder: iterations % CHUNK_SIZE }
}

/// Samples `chunks` chunks of `chunk_size` points each on rayon's worker pool
/// and adds up the per-chunk counts.
///
/// The body is not verified. It maps `sample_chunk` over rayon's parallel
/// range `0..chunks` and reduces the counts with `ParallelIterator::sum`.
/// The contract relies on rayon calling the closure once per index and adding
/// up what it returned: each count is at most `chunk_size`, as `sample_chunk`
/// guarantees, so the sum is at most `chunks * chunk_size` and, under the
/// precondition, does not overflow. Which points were drawn is random.
#[verifier::external_body]
fn sample_chunks_in_parallel(chunks: u64, chunk_size: u64) -> (inside: u64)
    requires
        chunks * chunk_size <= u64::MAX,
    ensures
        inside <= chunks * chunk_size,
{
    (0..chunks).into_par_iter().map(|_| sample_chunk(chunk_size)).sum()
}

/// The fixed-point estimate of pi from `inside` hits among `iterations`
/// samples: four times the hit ratio, rounded down. Zero samples give the
/// estimate zero.
pub open spec fn fixed_point_estimate(inside: int, iterations: int) -> int {
    if iterations <= 0 {
        0
    } else {
        (4 * inside * FIXED_ONE) / iterations
    }
}

/// The absolute difference between a fixed-point estimate and pi.
pub open spec fn distance_from_pi(estimate: int) -> int {
    if estimate >= FIXED_PI {
        estimate - FIXED_PI
    } else {
        FIXED_PI - estimate
    }
}

/// A ratio of at most one, scaled by a factor, is at most that factor.
proof fn lemma_scaled_ratio_bound(inside: int, iterations: int, scale: int)
    requires
        0 <= inside <= iterations,
        iterations > 0,
        scale >= 0,
    ensures
        0 <= (scale * inside) / iterations <= scale,
{
    assert(0 <= (scale * inside) / iterations <= scale) by (nonlinear_arith)
        requires
            0 <= inside <= iterations,
            iterations > 0,
            scale >= 0,
    ;
}

/// Outcome of one estimation run.
#[derive(Debug, Clone, Copy, PartialEq, Eq)]
pub struct MonteCarloResult {
    /// Estimate of pi in fixed point.
    pub pi_estimate: u64,
    /// Number of samples requested.
    pub iterations: u64,
    /// Time spent sampling and reducing.
    pub elapsed: Duration,
    /// Absolute deviation of the estimate from pi in fixed point.
    pub error: u64,
    /// Number of samples that fell inside the quarter disc.
    pub inside_circle: u64,
}

impl MonteCarloResult {
    /// The estimate and the error are the ones that the tally determines.
    pub open spec fn consistent(&self) -> bool {
        &&& self.inside_circle <= self.iterations
        &&& self.pi_estimate == fixed_point_estimate(
            self.inside_circle as int,
            self.iterations as int,
        )
        &&& self.error == distance_from_pi(self.pi_estimate as int)
    }
}

/// Every consistent result holds an estimate between zero and four and an
/// error that is the estimate's distance from pi; a result for zero
/// iterations holds the estimate zero and the error pi.
pub proof fn consistent_result_is_bounded(result: MonteCarloResult)
    requires
        result.consistent(),
    ensures
        0 <= result.pi_estimate <= 4 * FIXED_ONE,
        result.error == distance_from_pi(result.pi_estimate as int),
        result.error <= FIXED_PI,
        result.iterations == 0 ==> result.pi_estimate == 0 && result.error == FIXED_PI,
{
    if result.iterations > 0 {
        lemma_scaled_ratio_bound(
            result.inside_circle as int,
            result.iterations as int,
            4 * FIXED_ONE,
        );
        assert(4 * result.inside_circle * FIXED_ONE == (4 * FIXED_ONE) * result.inside_circle)
            by (nonlinear_arith);
    }
}

/// Computes the fixed-point estimate of pi from a tally.
pub fn estimate_pi(inside_circle: u64, iterations: u64) -> (estimate: u64)
    requires
        inside_circle <= iterations,
    ensures
        estimate == fixed_point_estimate(inside_circle as int, iterations as int),
        estimate <= 4 * FIXED_ONE,
{
    if iterations == 0 {
        0
    } else {
        proof {
            lemma_scaled_ratio_bound(
                inside_circle as int,
                iterations as int,
                4 * FIXED_ONE,
            );
            assert(4 * inside_circle * FIXED_ONE == (4 * FIXED_ONE) * inside_circle)
                by (nonlinear_arith);
            assert((4 * FIXED_ONE) * inside_circle <= (4 * FIXED_ONE) * u64::MAX)
                by (nonlinear_arith)
                requires
                    inside_circle <= u64::MAX,
            ;
        }
        let scaled: u128 = 4 * (inside_circle as u128) * (FIXED_ONE as u128);
        (scaled / (iterations as u128)) as u64
    }
}

/// Computes how far a fixed-point estimate lies from pi.
pub fn deviation(estimate: u64) -> (error: u64)
    ensures
        error == distance_from_pi(estimate as int),
{
    if estimate >= FIXED_PI {
        estimate - FIXED_PI
    } else {
        FIXED_PI - estimate
    }
}

/// Estimates pi from `iterations` random samples.
///
/// The samples are split into chunks that are processed in parallel, each
/// with its own generator; the per-chunk counts are added up and the remainder
/// chunk is sampled on the calling thread. The measured time covers sampling
/// and reduction. With zero iterations the estimate is zero and the error is
/// pi itself.
pub fn calculate_pi_monte_carlo(iterations: u64) -> (result: MonteCarloResult)
    ensures
        result.iterations == iterations,
        result.consistent(),
        result.pi_estimate <= 4 * FIXED_ONE,
        iterations == 0 ==> result.pi_estimate == 0 && result.error == FIXED_PI,
{
    let start = Instant::now();
    let plan = plan_chunks(iterations);
    let in_full_chunks = sample_chunks_in_parallel(plan.full_chunks, CHUNK_SIZE);
    let inside_circle = if plan.remainder > 0 {
        in_full_chunks + sample_chunk(plan.remainder)
    } else {
        in_full_chunks
    };
    let pi_estimate = estimate_pi(inside_circle, iterations);
    let error = deviation(pi_estimate);
    let elapsed = start.elapsed();
    MonteCarloResult { pi_estimate, iterations, elapsed, error, inside_circle }
}

} // verus!
