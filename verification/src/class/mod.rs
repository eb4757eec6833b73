pub mod error;
pub mod reader;
pub mod stack_map_frame;
pub mod mutf8;
pub mod constant_pool;
pub mod attributes;
pub mod class_file;
pub mod field;
pub mod method;

use vstd::prelude::*;

verus! {

} // verus!
