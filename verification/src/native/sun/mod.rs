pub mod misc;
pub mod reflect;
