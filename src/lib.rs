//! Approximate set membership with a bit-packed Bloom filter, and a
//! refillable buffer of entropy bytes that yields random integers.
pub mod bloom;
pub mod error;
pub mod os_random;
