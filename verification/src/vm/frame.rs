use vstd::prelude::*;

use crate::vm::runtime_class::ClassRef;
use crate::vm::value::Value;

verus! {

/// `n` copies of `v`.
pub fn filled(v: Value, n: usize) -> (r: Vec<Value>)
    ensures
        r@ == Seq::new(n as nat, |i: int| v),
{
    let mut out: Vec<Value> = Vec::with_capacity(n);
    let mut i: usize = 0;
    while i < n
        invariant
            i <= n,
            out@ == Seq::new(i as nat, |j: int| v),
        decreases n - i,
    {
        out.push(v);
        i = i + 1;
        proof {
            assert(out@ =~= Seq::new(i as nat, |j: int| v));
        }
    }
    out
}

/// The operand stack after pushing `v`: a `long` or `double` takes two slots,
/// an `Empty` filler below the value.
pub open spec fn stack_push(stack: Seq<Value>, v: Value) -> Seq<Value> {
    if v.spec_is_wide() {
        stack.push(Value::Empty).push(v)
    } else {
        stack.push(v)
    }
}

/// The operand stack after popping its top value `stack.last()`: a `long` or
/// `double` also removes the slot below it, where there is one.
pub open spec fn stack_pop(stack: Seq<Value>) -> Seq<Value> {
    if stack.last().spec_is_wide() && stack.len() >= 2 {
        stack.subrange(0, stack.len() - 2)
    } else {
        stack.drop_last()
    }
}

/// Pushing a value and popping it gives the value back and leaves the
/// operand stack as it was, for every value, `long` and `double` included.
pub proof fn lemma_push_then_pop(stack: Seq<Value>, v: Value)
    ensures
        stack_push(stack, v).len() > 0,
        stack_push(stack, v).last() == v,
        stack_pop(stack_push(stack, v)) == stack,
{
    if v.spec_is_wide() {
        assert(stack.push(Value::Empty).push(v).subrange(0, stack.len() as int) =~= stack);
    } else {
        assert(stack.push(v).drop_last() =~= stack);
    }
}

/// An activation record: local variables, operand stack, program counter
/// and the method being run.
pub struct Frame {
    pub locals: Vec<Value>,
    pub operand_stack: Vec<Value>,
    pub pc: usize,
    pub class: ClassRef,
    pub method_index: usize,
}

impl Frame {
    /// A frame for method `method_index` of `class` with `max_locals` empty
    /// locals, an empty operand stack and pc 0.
    pub fn new(max_locals: usize, max_stack: usize, class: ClassRef, method_index: usize) -> (r:
        Self)
        ensures
            r.locals@ == Seq::new(max_locals as nat, |i: int| Value::Empty),
            r.operand_stack@ == Seq::<Value>::empty(),
            r.pc == 0,
            r.class == class,
            r.method_index == method_index,
    {
        Self {
            locals: filled(Value::Empty, max_locals),
            operand_stack: Vec::with_capacity(max_stack),
            pc: 0,
            class,
            method_index,
        }
    }

    /// Pushes `v`; a `long` or `double` takes two slots.
    pub fn push_value(&mut self, v: Value)
        ensures
            final(self).operand_stack@ == stack_push(old(self).operand_stack@, v),
            final(self).locals == old(self).locals,
            final(self).pc == old(self).pc,
            final(self).class == old(self).class,
            final(self).method_index == old(self).method_index,
    {
        if v.is_wide() {
            self.operand_stack.push(Value::Empty);
        }
        self.operand_stack.push(v);
    }

    /// Pops the top value; a `long` or `double` also pops the slot below.
    /// `None` on an empty stack.
    pub fn pop_value(&mut self) -> (r: Option<Value>)
        ensures
            old(self).operand_stack@.len() == 0 ==> r is None && final(self).operand_stack@
                == old(self).operand_stack@,
            old(self).operand_stack@.len() > 0 ==> r == Some(old(self).operand_stack@.last())
                && final(self).operand_stack@ == stack_pop(old(self).operand_stack@),
            final(self).locals == old(self).locals,
            final(self).pc == old(self).pc,
            final(self).class == old(self).class,
            final(self).method_index == old(self).method_index,
    {
        match self.operand_stack.pop() {
            None => None,
            Some(v) => {
                if v.is_wide() {
                    let _ = self.operand_stack.pop();
                }
                Some(v)
            },
        }
    }
}

} // verus!
