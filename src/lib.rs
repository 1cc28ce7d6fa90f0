//! Swatch Internet Time: beats of the day, anchored to UTC+1.
pub mod beat;
pub mod cli;
pub mod swiftbar;
pub mod text;
pub mod timestamp;

pub use beat::{Beat, BeatError, BeatJSON, TimeOfDay};
pub use cli::{parse_beats_argument, OutputFormat};
pub use swiftbar::BeatSwiftbarDecorator;
pub use timestamp::Timestamp;
