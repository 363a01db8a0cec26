//! The session manager of a voice-channel listener: per-speaker sample
//! buffers, the binding of stream identifiers to speakers, the encoding of a
//! finished utterance and the decisions taken on each voice event.

pub mod decimal;
pub mod identity;
pub mod laws;
pub mod receiver;
pub mod recognize;
pub mod samples;
pub mod wav;
