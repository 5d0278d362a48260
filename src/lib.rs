//! Frame-accurate time values: a millisecond time, a frame-rate timebase,
//! SMPTE-style timecodes, millisecond timestamps and time ranges.
pub mod time;
pub mod range;
pub mod support;
pub mod text;
pub mod timebase;
pub mod timecode;
pub mod timestamp;

pub use range::TimeRange;
pub use support::{TimeRangeMutableSupport, TimeRangeSupport};
pub use time::Time;
pub use timebase::Timebase;
pub use timecode::Timecode;
pub use timestamp::{Timestamp, TimestampError};
