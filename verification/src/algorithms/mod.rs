//! Downsampling, statistics and layout algorithms.

pub mod arc;
pub mod box_layout;
pub mod lttb;
pub mod m4;
pub mod nearest;
pub mod paths;
pub mod sorting;
pub mod stack;
pub mod statistics;
pub mod waterfall;
