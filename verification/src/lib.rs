//! Deterministic password derivation.
//!
//! A composed byte string made of an optional secondary secret, an optional
//! username and a domain is run through an iterated keyed transform, the
//! digest is encoded into a fixed 64-symbol alphabet, and the encoding is fed
//! back into the transform until the result contains a lowercase letter, an
//! uppercase letter, a digit and a punctuation symbol, or an iteration
//! ceiling is reached.  The whole derivation is a pure function of its
//! inputs: nothing is stored and nothing is drawn from the environment.

pub mod alphabet;
pub mod compose;
pub mod encode;
pub mod engine;
pub mod policy;
pub mod transform;

pub use compose::compose_input;
pub use encode::encode;
pub use engine::create_password;
pub use engine::derive_password;
pub use engine::derive_with;
pub use engine::DerivationError;
pub use engine::Derived;
pub use policy::has_all_features;
pub use transform::Pbkdf2Transform;
pub use transform::ZeroTransform;
