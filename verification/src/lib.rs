//! Motion-filtered screen recording: the similarity metric, the colour
//! conversion and the decisions of the capture, filter and encode stages.

pub mod capture;
pub mod control;
pub mod encode;
pub mod filter;
pub mod helper;
pub mod pool;
pub mod timing;
