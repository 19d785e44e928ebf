//! Audio configuration: stream settings, accent contexts, the noise
//! generator, and which voice plays a new note.

pub mod accents;
pub mod noise;
pub mod stream;
pub mod voices;

pub use accents::{AccentContext, accent_contrast};
pub use noise::noise_level;
pub use stream::{AudioStreamBuilder, PolyphonicaStreamConfig};
pub use voices::pick_voice;
