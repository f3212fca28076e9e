//! MT19937, the 32-bit Mersenne Twister, with its model and proofs.
//!
//! The generator keeps 624 words of state and a cursor. Every public
//! operation is specified against [`GeneratorState`], a mathematical
//! model of that state, and the functions in [`model`] that describe
//! seeding, regeneration and tempering.

pub mod generator;
pub mod laws;
pub mod model;
pub mod res53;
pub mod rng;

pub use generator::InvalidIndex;
pub use generator::MT19937;
pub use model::GeneratorState;
pub use model::N;
pub use res53::gen_res53_parts;
pub use res53::res53_parts;
pub use rng::Seed;
pub use rng::SEED_BYTES;
