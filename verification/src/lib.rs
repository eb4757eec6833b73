//! A small Java virtual machine: class-file parsing, a runtime model of
//! classes, objects and threads, and a bytecode interpreter.

pub mod class;
pub mod error;
pub mod native;
pub mod text;
pub mod vm;

use vstd::prelude::*;

verus! {

} // verus!
