//! Scanning engine for a passively multiplexed 4x4 LED matrix.

pub mod animation;
pub mod frame;
pub mod line;
pub mod patterns;
pub mod scan;
pub mod theorems;
pub mod trace;
