//! An interactive zero-knowledge proof of knowledge of a discrete logarithm,
//! used to authenticate a client that never sends its secret.
//!
//! The prover ([`peggy`]) holds a secret `x` and publishes `y = g^x mod p`.
//! In each round it commits to a fresh `r` with `c = g^r mod p`; the verifier
//! ([`victor`]) answers with a random challenge ([`choice`]) and accepts the
//! response if `g^res = c` or `g^res = c * y (mod p)`, as the challenge asks.
//! A prover without `x` can prepare for one challenge only, so ten valid
//! rounds leave a cheater a chance of about one in a thousand.
//!
//! * [`protocol`] states the mathematics and proves that honest responses
//!   are accepted and that a response to the wrong challenge is not;
//!   [`primes`], [`fermat`] and [`group`] prove that a safe prime and a
//!   number that passed the generator test carry those laws. The verifier's
//!   handshake returns such a pair, on OpenSSL's word that its prime is a
//!   safe one.
//! * [`natural`] and [`hex`] hold the numbers and their text form.
//! * [`client_data`] is the record kept of each client, with the laws of its
//!   steps; [`router`] holds the operations on it and [`web_utils`] their
//!   errors; [`fe_lib`] offers the prover's side on text.
//! * [`bigint`], [`bn`] and [`random`] hand the arithmetic, the prime search
//!   and the random draws to `num_bigint`, OpenSSL and `rand`. Their
//!   contracts are the part of the library that is believed rather than
//!   proved.

pub mod bigint;
pub mod bn;
pub mod choice;
pub mod client_data;
pub mod fe_lib;
pub mod fermat;
pub mod group;
pub mod hex;
pub mod natural;
pub mod peggy;
pub mod primes;
pub mod protocol;
pub mod random;
pub mod router;
pub mod victor;
pub mod web_utils;
