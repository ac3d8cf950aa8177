//! Computational core of a desktop utility: integer arithmetic on request,
//! a greeting, a Monte Carlo estimator of pi, a prime-counting sieve and the
//! script of a background progress task.

pub mod async_task;
pub mod calculator;
pub mod clock;
pub mod greet;
pub mod monte_carlo;
pub mod prime_sieve;
pub mod progress;
pub mod system_info;
pub mod text;

pub use async_task::confirmation;
pub use calculator::perform_calculation;
pub use calculator::Operation;
pub use greet::greet;
pub use monte_carlo::calculate_pi_monte_carlo;
pub use monte_carlo::MonteCarloResult;
pub use prime_sieve::calculate_primes_rust;
pub use prime_sieve::PrimeResult;
pub use progress::start_progress_task;
pub use progress::ProgressUpdate;
pub use system_info::SystemInfo;
