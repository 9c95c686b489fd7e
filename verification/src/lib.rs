//! A proof-of-latency engine built on a verifiable delay function (VDF):
//! one peer repeatedly squares a group element modulo an RSA integer, the
//! other ends the computation by sending a prime cap, and a short
//! Wesolowski-style proof lets anyone check the work quickly.

pub mod bignum;
pub mod util;
pub mod vdf;
pub mod laws;
