pub mod class;
pub mod double;
pub mod float;
pub mod object;
pub mod system;
pub mod thread;
pub mod throwable;
