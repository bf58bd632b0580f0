//! Frame filtering, backtrace folding and report assembly for panic and error
//! reports, with the rules stated as contracts and proved.
pub mod text;
pub mod frame;
pub mod filter;
pub mod section;
pub mod verbosity;
pub mod backtrace;
pub mod indent;
pub mod report;

pub use crate::filter::{default_frame_filter, eyre_frame_filters};
pub use crate::frame::Frame;
