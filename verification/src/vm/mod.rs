pub mod classpath;
pub mod decode;
pub mod descriptor;
pub mod float;
pub mod frame;
pub mod heap;
pub mod interpreter;
pub mod local_ops;
pub mod opcode;
pub mod runtime_class;
pub mod runtime_field;
pub mod runtime_method;
pub mod thread;
pub mod value;
pub mod vm;
