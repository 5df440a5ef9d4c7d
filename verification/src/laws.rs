//! General properties of the execution semantics, stated and proved once for
//! all programs.

use crate::inst::Instruction;
use crate::inst::FunctionView;
use crate::numeric::add_bits_of;
use crate::numeric::mul_bits_of;
use crate::semantics::spec_call;
use crate::semantics::spec_call_finish;
use crate::semantics::spec_execute;
use crate::semantics::CallState;
use crate::semantics::ExecState;
use crate::semantics::Fault;
use vstd::prelude::*;

verus! {

/// The number of `Const` instructions in `code`.
pub open spec fn const_count(code: Seq<Instruction>) -> nat
    decreases code.len(),
{
    if code.len() == 0 {
        0
    } else {
        (if code[0] is Const {
            1nat
        } else {
            0nat
        }) + const_count(code.skip(1))
    }
}

/// The number of `Add` and `Mul` instructions in `code`.
pub open spec fn op_count(code: Seq<Instruction>) -> nat
    decreases code.len(),
{
    if code.len() == 0 {
        0
    } else {
        (if code[0] is Add || code[0] is Mul {
            1nat
        } else {
            0nat
        }) + op_count(code.skip(1))
    }
}

/// `code` holds only `Const`, `Add` and `Mul`, and starting from a stack of
/// height `h` every `Add`/`Mul` finds its two operands.
pub open spec fn arith_balanced(code: Seq<Instruction>, h: nat) -> bool
    decreases code.len(),
{
    if code.len() == 0 {
        true
    } else {
        match code[0] {
            Instruction::Const(_) => arith_balanced(code.skip(1), h + 1),
            Instruction::Add => h >= 2 && arith_balanced(code.skip(1), (h - 1) as nat),
            Instruction::Mul => h >= 2 && arith_balanced(code.skip(1), (h - 1) as nat),
            _ => false,
        }
    }
}

/// The stack that a balanced `Const`/`Add`/`Mul` sequence leaves: each `Const`
/// pushes, each `Add`/`Mul` folds the two topmost values under the IEEE-754
/// operation.
pub open spec fn arith_result(stack: Seq<u64>, code: Seq<Instruction>) -> Seq<u64>
    decreases code.len(),
{
    if code.len() == 0 {
        stack
    } else {
        match code[0] {
            Instruction::Const(v) => arith_result(stack.push(v), code.skip(1)),
            Instruction::Add => arith_result(
                stack.drop_last().drop_last().push(
                    add_bits_of(stack[stack.len() - 2], stack.last()),
                ),
                code.skip(1),
            ),
            Instruction::Mul => arith_result(
                stack.drop_last().drop_last().push(
                    mul_bits_of(stack[stack.len() - 2], stack.last()),
                ),
                code.skip(1),
            ),
            _ => stack,
        }
    }
}

/// A balanced sequence of `Const`/`Add`/`Mul` never faults, touches neither
/// memory nor locals, and leaves the stack `arith_result` describes — in
/// particular, a stack whose height is the starting height plus the number of
/// `Const` minus the number of `Add` and `Mul`.
pub proof fn lemma_arith_program(
    funcs: Seq<FunctionView>,
    s: ExecState,
    code: Seq<Instruction>,
    depth: nat,
)
    requires
        arith_balanced(code, s.stack.len()),
    ensures
        spec_execute(funcs, s, code, depth) == Ok::<ExecState, Fault>(
            ExecState { stack: arith_result(s.stack, code), mem: s.mem, locals: s.locals },
        ),
        arith_result(s.stack, code).len() as int == s.stack.len() + const_count(code) - op_count(
            code,
        ),
    decreases code.len(),
{
    if code.len() == 0 {
        assert(s =~= (ExecState { stack: arith_result(s.stack, code), mem: s.mem, locals: s.locals }));
    } else {
        match code[0] {
            Instruction::Const(v) => {
                lemma_arith_program(
                    funcs,
                    ExecState { stack: s.stack.push(v), mem: s.mem, locals: s.locals },
                    code.skip(1),
                    depth,
                );
            },
            Instruction::Add => {
                lemma_arith_program(
                    funcs,
                    ExecState {
                        stack: s.stack.drop_last().drop_last().push(
                            add_bits_of(s.stack[s.stack.len() - 2], s.stack.last()),
                        ),
                        mem: s.mem,
                        locals: s.locals,
                    },
                    code.skip(1),
                    depth,
                );
            },
            Instruction::Mul => {
                lemma_arith_program(
                    funcs,
                    ExecState {
                        stack: s.stack.drop_last().drop_last().push(
                            mul_bits_of(s.stack[s.stack.len() - 2], s.stack.last()),
                        ),
                        mem: s.mem,
                        locals: s.locals,
                    },
                    code.skip(1),
                    depth,
                );
            },
            _ => {},
        }
    }
}

/// Inside a call, `LocalGet(i)` pushes exactly the `i`-th argument of that
/// call: the scope a call runs under is built from its own arguments alone,
/// so no enclosing or earlier call can change what `LocalGet` sees.
pub proof fn lemma_local_get_reads_argument(
    funcs: Seq<FunctionView>,
    stack: Seq<u64>,
    mem: Seq<u8>,
    f: FunctionView,
    args: Seq<u64>,
    depth: nat,
    i: usize,
)
    requires
        args.len() == f.nparams,
        f.code.len() > 0,
        f.code[0] == Instruction::LocalGet(i),
        i < args.len(),
    ensures
        spec_call(funcs, stack, mem, f, args, depth) == spec_call_finish(
            f,
            spec_execute(
                funcs,
                ExecState { stack: stack.push(args[i as int]), mem, locals: Some(args) },
                f.code.skip(1),
                depth,
            ),
        ),
{
}

/// A call leaves the caller's local scope exactly as it was, whatever the
/// callee did with its own: executing one `CallFunc` either faults or ends
/// with the caller's locals unchanged.
pub proof fn lemma_call_keeps_caller_locals(
    funcs: Seq<FunctionView>,
    s: ExecState,
    k: usize,
    depth: nat,
)
    ensures
        (match spec_execute(funcs, s, seq![Instruction::CallFunc(k)], depth) {
            Ok(s2) => s2.locals == s.locals && s2.mem == spec_after_call(funcs, s, k, depth).mem
                && s2.stack == spec_after_call(funcs, s, k, depth).stack,
            Err(_) => true,
        }),
{
    let code = seq![Instruction::CallFunc(k)];
    assert(code.len() == 1);
    assert(code[0] == Instruction::CallFunc(k));
    assert(code.skip(1) =~= Seq::<Instruction>::empty());
    let f = funcs[k as int];
    if s.stack.len() >= f.nparams && depth > 0 {
        let keep = s.stack.len() - f.nparams;
        match spec_call(funcs, s.stack.take(keep), s.mem, f, s.stack.skip(keep), (depth - 1) as nat) {
            Err(_) => {},
            Ok(c) => {
                if f.returns_value {
                    match c.ret {
                        Some(rv) => {
                            assert(spec_execute(
                                funcs,
                                ExecState { stack: c.stack.push(rv), mem: c.mem, locals: s.locals },
                                code.skip(1),
                                depth,
                            ) == Ok::<ExecState, Fault>(
                                ExecState { stack: c.stack.push(rv), mem: c.mem, locals: s.locals },
                            ));
                        },
                        None => {},
                    }
                } else {
                    assert(spec_execute(
                        funcs,
                        ExecState { stack: c.stack, mem: c.mem, locals: s.locals },
                        code.skip(1),
                        depth,
                    ) == Ok::<ExecState, Fault>(
                        ExecState { stack: c.stack, mem: c.mem, locals: s.locals },
                    ));
                }
            },
        }
    }
}

/// The outcome of a run that does not exhaust its recursion budget is the
/// outcome of the program: any larger budget gives exactly the same result.
/// A program that terminates under some budget therefore terminates, with
/// the same final state, under every larger one.
pub proof fn lemma_execute_depth_monotone(
    funcs: Seq<FunctionView>,
    s: ExecState,
    code: Seq<Instruction>,
    d1: nat,
    d2: nat,
)
    requires
        d1 <= d2,
        spec_execute(funcs, s, code, d1) != Err::<ExecState, Fault>(Fault::CallDepthExceeded),
    ensures
        spec_execute(funcs, s, code, d2) == spec_execute(funcs, s, code, d1),
    decreases d1, code.len(), 1int,
{
    if code.len() == 0 {
    } else {
        let rest = code.skip(1);
        match code[0] {
            Instruction::Const(v) => {
                lemma_execute_depth_monotone(
                    funcs,
                    ExecState { stack: s.stack.push(v), mem: s.mem, locals: s.locals },
                    rest,
                    d1,
                    d2,
                );
            },
            Instruction::Add => {
                if s.stack.len() >= 2 {
                    lemma_execute_depth_monotone(
                        funcs,
                        ExecState {
                            stack: s.stack.drop_last().drop_last().push(
                                add_bits_of(s.stack[s.stack.len() - 2], s.stack.last()),
                            ),
                            mem: s.mem,
                            locals: s.locals,
                        },
                        rest,
                        d1,
                        d2,
                    );
                }
            },
            Instruction::Mul => {
                if s.stack.len() >= 2 {
                    lemma_execute_depth_monotone(
                        funcs,
                        ExecState {
                            stack: s.stack.drop_last().drop_last().push(
                                mul_bits_of(s.stack[s.stack.len() - 2], s.stack.last()),
                            ),
                            mem: s.mem,
                            locals: s.locals,
                        },
                        rest,
                        d1,
                        d2,
                    );
                }
            },
            Instruction::Load => {
                if s.stack.len() >= 1 {
                    let addr = crate::numeric::addr_of_bits(s.stack.last()) as int;
                    if addr + 8 <= s.mem.len() {
                        lemma_execute_depth_monotone(
                            funcs,
                            ExecState {
                                stack: s.stack.drop_last().push(crate::mem::read8(s.mem, addr)),
                                mem: s.mem,
                                locals: s.locals,
                            },
                            rest,
                            d1,
                            d2,
                        );
                    }
                }
            },
            Instruction::Store => {
                if s.stack.len() >= 2 {
                    let v = s.stack.last();
                    let addr = crate::numeric::addr_of_bits(s.stack[s.stack.len() - 2]) as int;
                    if addr + 8 <= s.mem.len() {
                        lemma_execute_depth_monotone(
                            funcs,
                            ExecState {
                                stack: s.stack.drop_last().drop_last(),
                                mem: crate::mem::write8(s.mem, addr, v),
                                locals: s.locals,
                            },
                            rest,
                            d1,
                            d2,
                        );
                    }
                }
            },
            Instruction::LocalGet(i) => {
                match s.locals {
                    Option::None => {},
                    Option::Some(l) => {
                        if i < l.len() {
                            lemma_execute_depth_monotone(
                                funcs,
                                ExecState {
                                    stack: s.stack.push(l[i as int]),
                                    mem: s.mem,
                                    locals: s.locals,
                                },
                                rest,
                                d1,
                                d2,
                            );
                        }
                    },
                }
            },
            Instruction::LocalSet(i) => {
                if s.stack.len() >= 1 {
                    match s.locals {
                        Option::None => {},
                        Option::Some(l) => {
                            if i < l.len() {
                                lemma_execute_depth_monotone(
                                    funcs,
                                    ExecState {
                                        stack: s.stack.drop_last(),
                                        mem: s.mem,
                                        locals: Some(l.update(i as int, s.stack.last())),
                                    },
                                    rest,
                                    d1,
                                    d2,
                                );
                            }
                        },
                    }
                }
            },
            Instruction::CallFunc(k) => {
                let f = funcs[k as int];
                if s.stack.len() >= f.nparams {
                    assert(d1 > 0);
                    let keep = s.stack.len() - f.nparams;
                    let args = s.stack.skip(keep);
                    lemma_call_depth_monotone(
                        funcs,
                        s.stack.take(keep),
                        s.mem,
                        f,
                        args,
                        (d1 - 1) as nat,
                        (d2 - 1) as nat,
                    );
                    match spec_call(funcs, s.stack.take(keep), s.mem, f, args, (d1 - 1) as nat) {
                        Err(_) => {},
                        Ok(c) => {
                            if f.returns_value {
                                match c.ret {
                                    Option::Some(rv) => {
                                        lemma_execute_depth_monotone(
                                            funcs,
                                            ExecState {
                                                stack: c.stack.push(rv),
                                                mem: c.mem,
                                                locals: s.locals,
                                            },
                                            rest,
                                            d1,
                                            d2,
                                        );
                                    },
                                    Option::None => {},
                                }
                            } else {
                                lemma_execute_depth_monotone(
                                    funcs,
                                    ExecState { stack: c.stack, mem: c.mem, locals: s.locals },
                                    rest,
                                    d1,
                                    d2,
                                );
                            }
                        },
                    }
                }
            },
        }
    }
}

/// The companion of [`lemma_execute_depth_monotone`] for whole calls.
pub proof fn lemma_call_depth_monotone(
    funcs: Seq<FunctionView>,
    stack: Seq<u64>,
    mem: Seq<u8>,
    f: FunctionView,
    args: Seq<u64>,
    d1: nat,
    d2: nat,
)
    requires
        d1 <= d2,
        spec_call(funcs, stack, mem, f, args, d1) != Err::<CallState, Fault>(
            Fault::CallDepthExceeded,
        ),
    ensures
        spec_call(funcs, stack, mem, f, args, d2) == spec_call(funcs, stack, mem, f, args, d1),
    decreases d1, f.code.len() + 1, 0int,
{
    if args.len() == f.nparams {
        lemma_execute_depth_monotone(
            funcs,
            ExecState { stack, mem, locals: Some(args) },
            f.code,
            d1,
            d2,
        );
    }
}

/// The state `CallFunc(k)` hands back to the caller on success: the stack
/// below the arguments with the return value (if any) on top, and the memory
/// the callee left.
pub open spec fn spec_after_call(
    funcs: Seq<FunctionView>,
    s: ExecState,
    k: usize,
    depth: nat,
) -> CallState {
    let f = funcs[k as int];
    let keep = s.stack.len() - f.nparams;
    match spec_call(funcs, s.stack.take(keep), s.mem, f, s.stack.skip(keep), (depth - 1) as nat) {
        Err(_) => CallState { stack: s.stack, mem: s.mem, ret: None },
        Ok(c) => {
            if f.returns_value {
                CallState {
                    stack: c.stack.push(c.ret->0),
                    mem: c.mem,
                    ret: c.ret,
                }
            } else {
                CallState { stack: c.stack, mem: c.mem, ret: None }
            }
        },
    }
}

} // verus!
