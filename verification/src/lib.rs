//! Primality oracles and the sum of the primes below a bound.
//!
//! Every oracle answers the same question, "is `n` prime?", and every
//! answer is proved equal to the mathematical definition in [`arith`]. The
//! trial-division oracles differ only in which candidates they try and where
//! they stop; the sieve-backed oracle looks its answer up.

pub mod arith;
pub mod fast;
pub mod isqrt;
pub mod naive;
pub mod oracle;
pub mod sieve;
pub mod summation;
pub mod test_range;

pub use crate::fast::{FastLinearPrimality, FastNonLinearPrimality};
pub use crate::isqrt::integer_sqrt;
pub use crate::naive::{
    NaivePrimality, NaivePrimalityWithNonLinearRangeLimit, NaivePrimalityWithRangeLimit,
};
pub use crate::oracle::Primality;
pub use crate::sieve::SievePrimality;
pub use crate::summation::{sum_primes_below, UPPER_BOUND};
pub use crate::test_range::TestRange;
