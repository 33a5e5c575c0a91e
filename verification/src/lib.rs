//! Entity and collision-response rules of a ball-and-paddle arcade game.
//!
//! The crate owns the identities of the live shapes, the rule that tells a
//! shape's kind from its identity, and the decisions taken on every contact
//! and every frame. Geometry, time of impact and rendering belong to the
//! program around it, which hands in plain facts and carries out what comes
//! back.

pub mod kind;
pub mod registry;
pub mod rules;
pub mod stepper;
pub mod walk;
