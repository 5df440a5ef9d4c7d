//! The instruction set and callable function definitions.
//!
//! Numeric operands are IEEE-754 binary64 values; throughout the library a
//! value is carried as its 64-bit pattern (a `u64`), so that every stack,
//! memory and locals rule can be stated and proved exactly.

use vstd::prelude::*;

verus! {

/// One bytecode operation, with a fixed stack effect.
#[derive(Clone, Copy, PartialEq, Eq, Structural, Debug)]
pub enum Instruction {
    /// Push the value whose bit pattern is given.
    Const(u64),
    /// Pop two values, push their product.
    Mul,
    /// Pop two values, push their sum.
    Add,
    /// Pop an address, push the 8 bytes read there.
    Load,
    /// Pop a value, pop an address, write the value's 8 bytes there.
    Store,
    /// Push the current scope's local at the given index.
    LocalGet(usize),
    /// Pop a value and bind it to the local at the given index.
    LocalSet(usize),
    /// Pop the callee's arguments and invoke the function at this table index.
    CallFunc(usize),
}

/// Mathematical image of a [`Function`].
pub struct FunctionView {
    pub nparams: nat,
    pub returns_value: bool,
    pub code: Seq<Instruction>,
}

/// A callable definition: how many parameters it binds, whether it leaves a
/// return value, and its body.
pub struct Function {
    nparams: usize,
    returns_value: bool,
    code: Vec<Instruction>,
}

impl View for Function {
    type V = FunctionView;

    closed spec fn view(&self) -> FunctionView {
        FunctionView { nparams: self.nparams as nat, returns_value: self.returns_value, code: self.code@ }
    }
}

impl Function {
    pub fn new(nparams: usize, returns_value: bool, code: Vec<Instruction>) -> (f: Function)
        ensures
            f@ == (FunctionView { nparams: nparams as nat, returns_value, code: code@ }),
    {
        Function { nparams, returns_value, code }
    }

    /// How many parameters a call must supply.
    pub fn param_count(&self) -> (n: usize)
        ensures
            n == self@.nparams,
    {
        self.nparams
    }

    /// Whether a call leaves a return value.
    pub fn has_return_value(&self) -> (b: bool)
        ensures
            b == self@.returns_value,
    {
        self.returns_value
    }

    /// The instruction sequence of the body.
    pub(crate) fn body(&self) -> (c: &Vec<Instruction>)
        ensures
            c@ == self@.code,
    {
        &self.code
    }
}

impl Clone for Function {
    fn clone(&self) -> (r: Self)
        ensures
            r@ == self@,
    {
        let mut code: Vec<Instruction> = Vec::new();
        let mut i: usize = 0;
        while i < self.code.len()
            invariant
                i <= self.code.len(),
                code@ == self.code@.subrange(0, i as int),
            decreases self.code.len() - i,
        {
            code.push(self.code[i]);
            i = i + 1;
        }
        assert(code@ == self.code@);
        Function { nparams: self.nparams, returns_value: self.returns_value, code }
    }
}

/// Every `CallFunc` in `code` names an entry of a table of `nfuncs` functions.
pub open spec fn code_wf(code: Seq<Instruction>, nfuncs: nat) -> bool {
    forall|i: int|
        0 <= i < code.len() ==> (#[trigger] code[i] matches Instruction::CallFunc(k) ==> k
            < nfuncs)
}

} // verus!
