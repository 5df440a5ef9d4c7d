//! The definitional interpreter: what executing bytecode means.
//!
//! `spec_execute` runs an instruction sequence over a stack, a memory and an
//! optional local scope, one instruction at a time; `spec_call` binds
//! arguments into a fresh scope, runs a function's body, and takes the return
//! value off the stack. The executable engine in [`crate::machine`] is proved
//! to agree with these functions on every input, fault for fault.

use crate::inst::FunctionView;
use crate::inst::Instruction;
use crate::numeric::add_bits_of;
use crate::numeric::addr_of_bits;
use crate::numeric::mul_bits_of;
use crate::mem::read8;
use crate::mem::write8;
use vstd::prelude::*;

verus! {

/// A fatal condition: it aborts the entire current execution.
#[derive(Clone, Copy, PartialEq, Eq, Structural, Debug)]
pub enum Fault {
    /// An instruction needed more operands than the stack holds.
    StackUnderflow,
    /// A `Load` or `Store` span of 8 bytes does not lie inside memory.
    OutOfBoundsMemoryAccess,
    /// A call's argument count differs from the function's parameter count.
    ArityMismatch,
    /// `LocalGet` or `LocalSet` outside any scope, or with an unbound index.
    UnboundLocal,
    /// A function declared to return a value finished with an empty stack.
    MissingReturnValue,
    /// Nested calls went deeper than the given recursion budget.
    CallDepthExceeded,
}

/// The state an instruction sequence runs over: the operand stack, linear
/// memory, and the local scope of the current activation, if any.
#[verifier::ext_equal]
pub struct ExecState {
    pub stack: Seq<u64>,
    pub mem: Seq<u8>,
    pub locals: Option<Seq<u64>>,
}

/// What a completed call leaves behind: the caller's stack and memory, and
/// the value returned, if the function declares one.
#[verifier::ext_equal]
pub struct CallState {
    pub stack: Seq<u64>,
    pub mem: Seq<u8>,
    pub ret: Option<u64>,
}

/// The local scope as the interpreter sees it.
pub open spec fn locals_view(l: Option<Vec<u64>>) -> Option<Seq<u64>> {
    match l {
        Option::None => None,
        Option::Some(v) => Some(v@),
    }
}

/// Runs `code` over `s`, strictly in order. `depth` is the recursion budget:
/// how many levels of nested calls may still be entered.
pub open spec fn spec_execute(
    funcs: Seq<FunctionView>,
    s: ExecState,
    code: Seq<Instruction>,
    depth: nat,
) -> Result<ExecState, Fault>
    decreases depth, code.len(), 1int,
{
    if code.len() == 0 {
        Ok(s)
    } else {
        let rest = code.skip(1);
        match code[0] {
            Instruction::Const(v) => spec_execute(
                funcs,
                ExecState { stack: s.stack.push(v), mem: s.mem, locals: s.locals },
                rest,
                depth,
            ),
            Instruction::Add => {
                if s.stack.len() < 2 {
                    Err(Fault::StackUnderflow)
                } else {
                    let b = s.stack.last();
                    let a = s.stack[s.stack.len() - 2];
                    spec_execute(
                        funcs,
                        ExecState {
                            stack: s.stack.drop_last().drop_last().push(add_bits_of(a, b)),
                            mem: s.mem,
                            locals: s.locals,
                        },
                        rest,
                        depth,
                    )
                }
            },
            Instruction::Mul => {
                if s.stack.len() < 2 {
                    Err(Fault::StackUnderflow)
                } else {
                    let b = s.stack.last();
                    let a = s.stack[s.stack.len() - 2];
                    spec_execute(
                        funcs,
                        ExecState {
                            stack: s.stack.drop_last().drop_last().push(mul_bits_of(a, b)),
                            mem: s.mem,
                            locals: s.locals,
                        },
                        rest,
                        depth,
                    )
                }
            },
            Instruction::Load => {
                if s.stack.len() < 1 {
                    Err(Fault::StackUnderflow)
                } else {
                    let addr = addr_of_bits(s.stack.last()) as int;
                    if addr + 8 > s.mem.len() {
                        Err(Fault::OutOfBoundsMemoryAccess)
                    } else {
                        spec_execute(
                            funcs,
                            ExecState {
                                stack: s.stack.drop_last().push(read8(s.mem, addr)),
                                mem: s.mem,
                                locals: s.locals,
                            },
                            rest,
                            depth,
                        )
                    }
                }
            },
            Instruction::Store => {
                if s.stack.len() < 2 {
                    Err(Fault::StackUnderflow)
                } else {
                    let v = s.stack.last();
                    let addr = addr_of_bits(s.stack[s.stack.len() - 2]) as int;
                    if addr + 8 > s.mem.len() {
                        Err(Fault::OutOfBoundsMemoryAccess)
                    } else {
                        spec_execute(
                            funcs,
                            ExecState {
                                stack: s.stack.drop_last().drop_last(),
                                mem: write8(s.mem, addr, v),
                                locals: s.locals,
                            },
                            rest,
                            depth,
                        )
                    }
                }
            },
            Instruction::LocalGet(i) => {
                match s.locals {
                    Option::None => Err(Fault::UnboundLocal),
                    Option::Some(l) => {
                        if i >= l.len() {
                            Err(Fault::UnboundLocal)
                        } else {
                            spec_execute(
                                funcs,
                                ExecState { stack: s.stack.push(l[i as int]), mem: s.mem, locals: s.locals },
                                rest,
                                depth,
                            )
                        }
                    },
                }
            },
            Instruction::LocalSet(i) => {
                if s.stack.len() < 1 {
                    Err(Fault::StackUnderflow)
                } else {
                    match s.locals {
                        Option::None => Err(Fault::UnboundLocal),
                        Option::Some(l) => {
                            if i >= l.len() {
                                Err(Fault::UnboundLocal)
                            } else {
                                spec_execute(
                                    funcs,
                                    ExecState {
                                        stack: s.stack.drop_last(),
                                        mem: s.mem,
                                        locals: Some(l.update(i as int, s.stack.last())),
                                    },
                                    rest,
                                    depth,
                                )
                            }
                        },
                    }
                }
            },
            Instruction::CallFunc(k) => {
                let f = funcs[k as int];
                if s.stack.len() < f.nparams {
                    Err(Fault::StackUnderflow)
                } else if depth == 0 {
                    Err(Fault::CallDepthExceeded)
                } else {
                    let keep = s.stack.len() - f.nparams;
                    let args = s.stack.skip(keep);
                    match spec_call(funcs, s.stack.take(keep), s.mem, f, args, (depth - 1) as nat) {
                        Err(ft) => Err(ft),
                        Ok(c) => {
                            if f.returns_value {
                                match c.ret {
                                    Option::Some(rv) => spec_execute(
                                        funcs,
                                        ExecState {
                                            stack: c.stack.push(rv),
                                            mem: c.mem,
                                            locals: s.locals,
                                        },
                                        rest,
                                        depth,
                                    ),
                                    Option::None => Err(Fault::MissingReturnValue),
                                }
                            } else {
                                spec_execute(
                                    funcs,
                                    ExecState { stack: c.stack, mem: c.mem, locals: s.locals },
                                    rest,
                                    depth,
                                )
                            }
                        },
                    }
                }
            },
        }
    }
}

/// Invokes `f` on `args`: checks arity, binds argument `k` to local `k` in a
/// fresh scope, runs the body, then settles the return value.
pub open spec fn spec_call(
    funcs: Seq<FunctionView>,
    stack: Seq<u64>,
    mem: Seq<u8>,
    f: FunctionView,
    args: Seq<u64>,
    depth: nat,
) -> Result<CallState, Fault>
    decreases depth, f.code.len() + 1, 0int,
{
    if args.len() != f.nparams {
        Err(Fault::ArityMismatch)
    } else {
        spec_call_finish(
            f,
            spec_execute(funcs, ExecState { stack, mem, locals: Some(args) }, f.code, depth),
        )
    }
}

/// Return-value handling at the end of a call: a function that declares a
/// return value pops exactly one; popping from an empty stack is a fault.
pub open spec fn spec_call_finish(f: FunctionView, r: Result<ExecState, Fault>) -> Result<
    CallState,
    Fault,
> {
    match r {
        Err(ft) => Err(ft),
        Ok(s) => {
            if f.returns_value {
                if s.stack.len() == 0 {
                    Err(Fault::MissingReturnValue)
                } else {
                    Ok(
                        CallState {
                            stack: s.stack.drop_last(),
                            mem: s.mem,
                            ret: Some(s.stack.last()),
                        },
                    )
                }
            } else {
                Ok(CallState { stack: s.stack, mem: s.mem, ret: None })
            }
        },
    }
}

} // verus!
