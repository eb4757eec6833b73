use vstd::prelude::*;

verus! {

/// The index of an object on the heap.
#[derive(Debug, Clone, Copy, PartialEq, Eq, Hash, Structural)]
pub struct ObjectRef(pub usize);

/// A value held in a local variable, on the operand stack, in a field or in
/// an array element. `Float` and `Double` hold raw IEEE 754 bits.
#[derive(Debug, Clone, Copy, PartialEq, Eq, Structural)]
pub enum Value {
    Int(i32),
    Long(i64),
    Float(u32),
    Double(u64),
    Reference(Option<ObjectRef>),
    ReturnAddress(usize),
    Empty,
}

impl Value {
    /// Whether the value takes two slots (a `long` or a `double`).
    pub open spec fn spec_is_wide(&self) -> bool {
        self is Long || self is Double
    }

    /// Whether the value takes two slots (a `long` or a `double`).
    #[verifier::when_used_as_spec(spec_is_wide)]
    pub fn is_wide(&self) -> (r: bool)
        ensures
            r == self.spec_is_wide(),
    {
        match self {
            Value::Long(_) | Value::Double(_) => true,
            _ => false,
        }
    }
}

/// The name of the kind of value `v` (`nothing` for no value), as error
/// messages give it.
pub open spec fn kind_text(v: Option<Value>) -> Seq<char> {
    match v {
        None => "nothing"@,
        Some(Value::Int(_)) => "Int"@,
        Some(Value::Long(_)) => "Long"@,
        Some(Value::Float(_)) => "Float"@,
        Some(Value::Double(_)) => "Double"@,
        Some(Value::Reference(_)) => "Reference"@,
        Some(Value::ReturnAddress(_)) => "ReturnAddress"@,
        Some(Value::Empty) => "Empty"@,
    }
}

} // verus!
