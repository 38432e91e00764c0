//! Native motion-playback engine for a dual-arm robot controller.
//!
//! The library decodes the binary `.ebs` motion-sequence format, validates
//! decoded sequences, keeps recently used sequences in a bounded recency
//! cache, and drives frame-stepped playback through a guarded state machine
//! with a drift-compensating timer. A host process reaches it through a
//! registry of player instances.

mod cache_manager;
mod engine;
mod lru;
mod parser;
mod playback_state;
mod registry;
mod sequence_data;
mod text;
mod timer;
mod validator;
mod wire;

pub use cache_manager::CacheManager;
pub use cache_manager::CacheStats;
pub use engine::EngineError;
pub use engine::PlaybackEngine;
pub use engine::StepOutcome;
pub use lru::CacheKey;
pub use lru::LRUCache;
pub use parser::ParseError;
pub use parser::SequenceParser;
pub use playback_state::PlaybackState;
pub use registry::LoadOutcome;
pub use registry::PlayerRegistry;
pub use sequence_data::SequenceData;
pub use timer::PrecisionTimer;
pub use validator::Arm;
pub use validator::SequenceValidator;
pub use validator::ValidationError;
