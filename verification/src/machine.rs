//! The executable engine, proved against the definitional interpreter.
//!
//! A `Machine` owns the operand stack, the linear memory and the function
//! table. `execute` runs an instruction sequence under an optional local
//! scope; `call` invokes one function with arguments. Both return exactly the
//! state and fault that [`crate::semantics::spec_execute`] and
//! [`crate::semantics::spec_call`] assign to their inputs.

use crate::inst::code_wf;
use crate::inst::Function;
use crate::inst::FunctionView;
use crate::inst::Instruction;
use crate::mem::lemma_write8_index;
use crate::mem::lemma_write8_len;
use crate::mem::read8;
use crate::mem::write8;
use crate::numeric::add_bits;
use crate::numeric::bits_to_addr;
use crate::numeric::mul_bits;
use crate::semantics::locals_view;
use crate::semantics::spec_call;
use crate::semantics::spec_execute;
use crate::semantics::CallState;
use crate::semantics::ExecState;
use crate::semantics::Fault;
use vstd::bytes::spec_u64_to_le_bytes;
use vstd::bytes::u64_from_le_bytes;
use vstd::bytes::u64_to_le_bytes;
use vstd::pervasive::VecAdditionalExecFns;
use vstd::prelude::*;

verus! {

/// Mathematical image of a [`Machine`].
pub struct MachineView {
    pub stack: Seq<u64>,
    pub mem: Seq<u8>,
    pub funcs: Seq<FunctionView>,
}

/// The virtual machine: an operand stack of numeric values (carried as their
/// bit patterns), a fixed-size byte memory, and a flat table of functions.
pub struct Machine {
    stack: Vec<u64>,
    memory: Vec<u8>,
    functions: Vec<Function>,
}

impl View for Machine {
    type V = MachineView;

    closed spec fn view(&self) -> MachineView {
        MachineView {
            stack: self.stack@,
            mem: self.memory@,
            funcs: self.functions@.map_values(|f: Function| f@),
        }
    }
}

impl Machine {
    /// Every function in the table only calls functions that exist in it.
    pub open spec fn wf(self) -> bool {
        forall|j: int|
            0 <= j < self@.funcs.len() ==> code_wf(
                (#[trigger] self@.funcs[j]).code,
                self@.funcs.len(),
            )
    }

    /// Builds a machine bound to `functions`, with `mem_size` bytes of
    /// zeroed linear memory and an empty operand stack.
    pub fn new(functions: Vec<Function>, mem_size: usize) -> (m: Machine)
        ensures
            m@.stack == Seq::<u64>::empty(),
            m@.mem.len() == mem_size,
            forall|i: int| 0 <= i < mem_size ==> m@.mem[i] == 0u8,
            m@.funcs == functions@.map_values(|f: Function| f@),
    {
        let mut memory: Vec<u8> = Vec::new();
        let mut i: usize = 0;
        while i < mem_size
            invariant
                i <= mem_size,
                memory@.len() == i,
                forall|j: int| 0 <= j < i ==> memory@[j] == 0u8,
            decreases mem_size - i,
        {
            memory.push(0u8);
            i = i + 1;
        }
        Machine { stack: Vec::new(), memory, functions }
    }

    /// Pushes one value onto the operand stack.
    pub fn push(&mut self, item: u64)
        ensures
            final(self)@.stack == old(self)@.stack.push(item),
            final(self)@.mem == old(self)@.mem,
            final(self)@.funcs == old(self)@.funcs,
    {
        self.stack.push(item);
    }

    /// Pops the most recently pushed value, or `None` on an empty stack.
    pub fn pop(&mut self) -> (r: Option<u64>)
        ensures
            final(self)@.mem == old(self)@.mem,
            final(self)@.funcs == old(self)@.funcs,
            old(self)@.stack.len() == 0 ==> r is None && final(self)@.stack == old(self)@.stack,
            old(self)@.stack.len() > 0 ==> r == Some(old(self)@.stack.last())
                && final(self)@.stack == old(self)@.stack.drop_last(),
    {
        self.stack.pop()
    }

    /// Reads the 8 bytes at `addr` as one little-endian value; faults if the
    /// span does not lie inside memory.
    pub fn load(&mut self, addr: usize) -> (r: Result<u64, Fault>)
        ensures
            final(self)@ == old(self)@,
            (if addr + 8 <= old(self)@.mem.len() {
                r == Ok::<u64, Fault>(read8(old(self)@.mem, addr as int))
            } else {
                r == Err::<u64, Fault>(Fault::OutOfBoundsMemoryAccess)
            }),
    {
        if self.memory.len() < 8 || addr > self.memory.len() - 8 {
            return Err(Fault::OutOfBoundsMemoryAccess);
        }
        let mut buf: Vec<u8> = Vec::new();
        let mut k: usize = 0;
        while k < 8
            invariant
                k <= 8,
                addr + 8 <= self@.mem.len(),
                self@.mem.len() <= usize::MAX,
                buf@.len() == k,
                forall|j: int| 0 <= j < k ==> buf@[j] == self@.mem[addr + j],
            decreases 8 - k,
        {
            let b = self.memory[addr + k];
            buf.push(b);
            k = k + 1;
        }
        proof {
            assert(buf@ =~= self@.mem.subrange(addr as int, addr as int + 8));
        }
        let v = u64_from_le_bytes(buf.as_slice());
        Ok(v)
    }

    /// Writes the little-endian bytes of `val` over the 8 bytes at `addr`;
    /// faults if the span does not lie inside memory.
    pub fn store(&mut self, addr: usize, val: u64) -> (r: Result<(), Fault>)
        ensures
            final(self)@.stack == old(self)@.stack,
            final(self)@.funcs == old(self)@.funcs,
            final(self)@.mem.len() == old(self)@.mem.len(),
            (if addr + 8 <= old(self)@.mem.len() {
                r == Ok::<(), Fault>(()) && final(self)@.mem == write8(
                    old(self)@.mem,
                    addr as int,
                    val,
                )
            } else {
                r == Err::<(), Fault>(Fault::OutOfBoundsMemoryAccess)
                    && final(self)@.mem == old(self)@.mem
            }),
    {
        if self.memory.len() < 8 || addr > self.memory.len() - 8 {
            return Err(Fault::OutOfBoundsMemoryAccess);
        }
        let bytes = u64_to_le_bytes(val);
        let ghost mem0 = self@.mem;
        let mut k: usize = 0;
        while k < 8
            invariant
                k <= 8,
                addr + 8 <= mem0.len(),
                mem0.len() <= usize::MAX,
                bytes@ == spec_u64_to_le_bytes(val),
                bytes@.len() == 8,
                self@.stack == old(self)@.stack,
                self@.funcs == old(self)@.funcs,
                self@.mem.len() == mem0.len(),
                forall|j: int|
                    0 <= j < mem0.len() && !(addr <= j < addr + k) ==> self@.mem[j] == mem0[j],
                forall|j: int| addr <= j < addr + k ==> self@.mem[j] == bytes@[j - addr],
            decreases 8 - k,
        {
            self.memory.set(addr + k, bytes[k]);
            k = k + 1;
        }
        proof {
            lemma_write8_len(mem0, addr as int, val);
            lemma_write8_index(mem0, addr as int, val);
            assert(self@.mem =~= write8(mem0, addr as int, val));
        }
        Ok(())
    }

    /// Runs `instructions` strictly in order under the optional local scope
    /// `locals`. `depth` bounds how many levels of nested calls may still be
    /// entered. The result — the final stack, memory and scope on success,
    /// the fault otherwise — is exactly what the definitional interpreter
    /// assigns.
    pub fn execute(
        &mut self,
        instructions: &Vec<Instruction>,
        locals: &mut Option<Vec<u64>>,
        depth: usize,
    ) -> (r: Result<(), Fault>)
        requires
            old(self).wf(),
            code_wf(instructions@, old(self)@.funcs.len()),
        ensures
            final(self).wf(),
            final(self)@.funcs == old(self)@.funcs,
            final(self)@.mem.len() == old(self)@.mem.len(),
            (match r {
                Ok(_) => spec_execute(
                    old(self)@.funcs,
                    ExecState {
                        stack: old(self)@.stack,
                        mem: old(self)@.mem,
                        locals: locals_view(*old(locals)),
                    },
                    instructions@,
                    depth as nat,
                ) == Ok::<ExecState, Fault>(
                    ExecState {
                        stack: final(self)@.stack,
                        mem: final(self)@.mem,
                        locals: locals_view(*final(locals)),
                    },
                ),
                Err(ft) => spec_execute(
                    old(self)@.funcs,
                    ExecState {
                        stack: old(self)@.stack,
                        mem: old(self)@.mem,
                        locals: locals_view(*old(locals)),
                    },
                    instructions@,
                    depth as nat,
                ) == Err::<ExecState, Fault>(ft),
            }),
        decreases depth, instructions@.len(), 1int,
    {
        let ghost funcs0 = self@.funcs;
        let ghost s0 = ExecState {
            stack: self@.stack,
            mem: self@.mem,
            locals: locals_view(*locals),
        };
        let n = instructions.len();
        let mut idx: usize = 0;
        proof {
            assert(instructions@.skip(0) =~= instructions@);
        }
        while idx < n
            invariant
                idx <= n,
                n == instructions@.len(),
                self.wf(),
                funcs0 == old(self)@.funcs,
                s0 == (ExecState {
                    stack: old(self)@.stack,
                    mem: old(self)@.mem,
                    locals: locals_view(*old(locals)),
                }),
                self@.funcs == funcs0,
                self@.mem.len() == s0.mem.len(),
                code_wf(instructions@, funcs0.len()),
                spec_execute(funcs0, s0, instructions@, depth as nat) == spec_execute(
                    funcs0,
                    ExecState {
                        stack: self@.stack,
                        mem: self@.mem,
                        locals: locals_view(*locals),
                    },
                    instructions@.skip(idx as int),
                    depth as nat,
                ),
            decreases n - idx,
        {
            let ghost cur = ExecState {
                stack: self@.stack,
                mem: self@.mem,
                locals: locals_view(*locals),
            };
            let ghost rem = instructions@.skip(idx as int);
            proof {
                assert(rem.len() == n - idx);
                assert(rem[0] == instructions@[idx as int]);
                assert(rem.skip(1) =~= instructions@.skip(idx as int + 1));
            }
            let instr = instructions[idx];
            match instr {
                Instruction::Const(v) => {
                    self.stack.push(v);
                    proof {
                        assert(spec_execute(funcs0, cur, rem, depth as nat) == spec_execute(
                            funcs0,
                            ExecState {
                                stack: self@.stack,
                                mem: self@.mem,
                                locals: locals_view(*locals),
                            },
                            rem.skip(1),
                            depth as nat,
                        ));
                    }
                },
                Instruction::Add => {
                    let b = match self.stack.pop() {
                        Option::Some(x) => x,
                        Option::None => {
                            return Err(Fault::StackUnderflow);
                        },
                    };
                    let a = match self.stack.pop() {
                        Option::Some(x) => x,
                        Option::None => {
                            return Err(Fault::StackUnderflow);
                        },
                    };
                    let c = add_bits(a, b);
                    self.stack.push(c);
                    proof {
                        assert(self@.stack =~= cur.stack.drop_last().drop_last().push(c));
                        assert(spec_execute(funcs0, cur, rem, depth as nat) == spec_execute(
                            funcs0,
                            ExecState {
                                stack: self@.stack,
                                mem: self@.mem,
                                locals: locals_view(*locals),
                            },
                            rem.skip(1),
                            depth as nat,
                        ));
                    }
                },
                Instruction::Mul => {
                    let b = match self.stack.pop() {
                        Option::Some(x) => x,
                        Option::None => {
                            return Err(Fault::StackUnderflow);
                        },
                    };
                    let a = match self.stack.pop() {
                        Option::Some(x) => x,
                        Option::None => {
                            return Err(Fault::StackUnderflow);
                        },
                    };
                    let c = mul_bits(a, b);
                    self.stack.push(c);
                    proof {
                        assert(self@.stack =~= cur.stack.drop_last().drop_last().push(c));
                        assert(spec_execute(funcs0, cur, rem, depth as nat) == spec_execute(
                            funcs0,
                            ExecState {
                                stack: self@.stack,
                                mem: self@.mem,
                                locals: locals_view(*locals),
                            },
                            rem.skip(1),
                            depth as nat,
                        ));
                    }
                },
                Instruction::Load => {
                    let ab = match self.stack.pop() {
                        Option::Some(x) => x,
                        Option::None => {
                            return Err(Fault::StackUnderflow);
                        },
                    };
                    let addr = bits_to_addr(ab);
                    let v = match self.load(addr) {
                        Ok(x) => x,
                        Err(ft) => {
                            return Err(ft);
                        },
                    };
                    self.stack.push(v);
                    proof {
                        assert(self@.stack =~= cur.stack.drop_last().push(v));
                        assert(spec_execute(funcs0, cur, rem, depth as nat) == spec_execute(
                            funcs0,
                            ExecState {
                                stack: self@.stack,
                                mem: self@.mem,
                                locals: locals_view(*locals),
                            },
                            rem.skip(1),
                            depth as nat,
                        ));
                    }
                },
                Instruction::Store => {
                    let v = match self.stack.pop() {
                        Option::Some(x) => x,
                        Option::None => {
                            return Err(Fault::StackUnderflow);
                        },
                    };
                    let ab = match self.stack.pop() {
                        Option::Some(x) => x,
                        Option::None => {
                            return Err(Fault::StackUnderflow);
                        },
                    };
                    let addr = bits_to_addr(ab);
                    match self.store(addr, v) {
                        Ok(_) => {},
                        Err(ft) => {
                            return Err(ft);
                        },
                    }
                    proof {
                        assert(self@.stack =~= cur.stack.drop_last().drop_last());
                        assert(spec_execute(funcs0, cur, rem, depth as nat) == spec_execute(
                            funcs0,
                            ExecState {
                                stack: self@.stack,
                                mem: self@.mem,
                                locals: locals_view(*locals),
                            },
                            rem.skip(1),
                            depth as nat,
                        ));
                    }
                },
                Instruction::LocalGet(i) => {
                    match locals.as_ref() {
                        Option::Some(l) => {
                            if i < l.len() {
                                let v = l[i];
                                self.stack.push(v);
                            } else {
                                return Err(Fault::UnboundLocal);
                            }
                        },
                        Option::None => {
                            return Err(Fault::UnboundLocal);
                        },
                    }
                    proof {
                        assert(spec_execute(funcs0, cur, rem, depth as nat) == spec_execute(
                            funcs0,
                            ExecState {
                                stack: self@.stack,
                                mem: self@.mem,
                                locals: locals_view(*locals),
                            },
                            rem.skip(1),
                            depth as nat,
                        ));
                    }
                },
                Instruction::LocalSet(i) => {
                    let v = match self.stack.pop() {
                        Option::Some(x) => x,
                        Option::None => {
                            return Err(Fault::StackUnderflow);
                        },
                    };
                    match locals.as_mut() {
                        Option::Some(l) => {
                            if i < l.len() {
                                l.set(i, v);
                            } else {
                                return Err(Fault::UnboundLocal);
                            }
                        },
                        Option::None => {
                            return Err(Fault::UnboundLocal);
                        },
                    }
                    proof {
                        assert(spec_execute(funcs0, cur, rem, depth as nat) == spec_execute(
                            funcs0,
                            ExecState {
                                stack: self@.stack,
                                mem: self@.mem,
                                locals: locals_view(*locals),
                            },
                            rem.skip(1),
                            depth as nat,
                        ));
                    }
                },
                Instruction::CallFunc(k) => {
                    proof {
                        assert(code_wf(instructions@, funcs0.len()));
                        assert(instructions@[idx as int] matches Instruction::CallFunc(kk) ==> kk
                            < funcs0.len());
                        assert(k < funcs0.len());
                        assert(funcs0[k as int] == self.functions@.map_values(
                            |f: Function| f@,
                        )[k as int]);
                    }
                    let func = self.functions[k].clone();
                    proof {
                        assert(func@ == funcs0[k as int]);
                        assert(code_wf(func@.code, funcs0.len()));
                    }
                    let np = func.param_count();
                    if self.stack.len() < np {
                        return Err(Fault::StackUnderflow);
                    }
                    if depth == 0 {
                        return Err(Fault::CallDepthExceeded);
                    }
                    let keep = self.stack.len() - np;
                    let mut fargs: Vec<u64> = Vec::new();
                    let mut j: usize = keep;
                    while j < self.stack.len()
                        invariant
                            keep <= j <= self@.stack.len(),
                            fargs@.len() == j - keep,
                            forall|t: int| 0 <= t < j - keep ==> fargs@[t] == self@.stack[keep + t],
                        decreases self@.stack.len() - j,
                    {
                        let v = self.stack[j];
                        fargs.push(v);
                        j = j + 1;
                    }
                    proof {
                        assert(fargs@ =~= cur.stack.skip(keep as int));
                    }
                    self.stack.truncate(keep);
                    proof {
                        assert(self@.stack =~= cur.stack.take(keep as int));
                    }
                    let res = self.call(&func, fargs, depth - 1);
                    match res {
                        Err(ft) => {
                            return Err(ft);
                        },
                        Ok(opt) => {
                            if func.has_return_value() {
                                match opt {
                                    Option::Some(rv) => {
                                        self.stack.push(rv);
                                    },
                                    Option::None => {
                                        return Err(Fault::MissingReturnValue);
                                    },
                                }
                            }
                        },
                    }
                    proof {
                        assert(spec_execute(funcs0, cur, rem, depth as nat) == spec_execute(
                            funcs0,
                            ExecState {
                                stack: self@.stack,
                                mem: self@.mem,
                                locals: locals_view(*locals),
                            },
                            rem.skip(1),
                            depth as nat,
                        ));
                    }
                },
            }
            idx = idx + 1;
        }
        proof {
            assert(instructions@.skip(n as int) =~= Seq::<Instruction>::empty());
        }
        Ok(())
    }

    /// Invokes `func` with `args`: checks the argument count against the
    /// parameter count, binds argument `k` to local `k` in a fresh scope,
    /// executes the body under it, and — if the function declares a return
    /// value — pops that value as the result. The scope never outlives the
    /// call.
    pub fn call(&mut self, func: &Function, args: Vec<u64>, depth: usize) -> (r: Result<
        Option<u64>,
        Fault,
    >)
        requires
            old(self).wf(),
            code_wf(func@.code, old(self)@.funcs.len()),
        ensures
            final(self).wf(),
            final(self)@.funcs == old(self)@.funcs,
            final(self)@.mem.len() == old(self)@.mem.len(),
            (match r {
                Ok(ret) => spec_call(
                    old(self)@.funcs,
                    old(self)@.stack,
                    old(self)@.mem,
                    func@,
                    args@,
                    depth as nat,
                ) == Ok::<CallState, Fault>(
                    CallState { stack: final(self)@.stack, mem: final(self)@.mem, ret },
                ),
                Err(ft) => spec_call(
                    old(self)@.funcs,
                    old(self)@.stack,
                    old(self)@.mem,
                    func@,
                    args@,
                    depth as nat,
                ) == Err::<CallState, Fault>(ft),
            }),
        decreases depth, func@.code.len() + 1, 0int,
    {
        if args.len() != func.param_count() {
            return Err(Fault::ArityMismatch);
        }
        let mut locals: Option<Vec<u64>> = Some(args);
        let r = self.execute(func.body(), &mut locals, depth);
        match r {
            Err(ft) => Err(ft),
            Ok(_) => {
                if func.has_return_value() {
                    match self.stack.pop() {
                        Option::None => Err(Fault::MissingReturnValue),
                        Option::Some(v) => Ok(Some(v)),
                    }
                } else {
                    Ok(None)
                }
            },
        }
    }
}

} // verus!
