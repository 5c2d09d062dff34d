//! Mock actors that expect an ordered sequence of messages.
//!
//! A test declares, one after another, the kind of message it expects next and
//! a callback that computes the reply. The resulting dispatcher then resolves
//! each delivered message against the next expectation, strictly in order and
//! at most once per expectation.

pub mod model;
pub mod sequence;

pub use model::DispatchError;
pub use sequence::{Envelope, MockActorSequence, SequenceDispatcher};
