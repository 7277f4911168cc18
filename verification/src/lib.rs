//! Battery telemetry charting pipeline.
//!
//! Two append-only history logs (state-of-charge percentage and
//! charge/discharge power) are parsed into entry sequences, windowed to the
//! most recent hours, split into three plot series, scaled into shared axis
//! ranges, and composed into a plan of drawing operations that a display
//! backend executes.

pub mod config;
pub mod errors;
pub mod frame;
pub mod history;
pub mod refresh;
pub mod scale;
pub mod series;
pub mod text;
pub mod value;
pub mod window;
