pub mod unzafe;
pub mod vm;
