pub mod java;
pub mod native_context;
pub mod native_registry;
pub mod sun;
