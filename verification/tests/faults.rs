use stackvm::Fault;
use stackvm::Function;
use stackvm::Instruction;
use stackvm::Machine;

#[test]
fn store_and_load_round_trip_bit_for_bit() {
    let mut m = Machine::new(vec![], 64);
    for v in [0.0f64, -0.0, 2.3, -3.75, 1.0e308, 5.0e-324] {
        assert_eq!(m.store(8, v.to_bits()), Ok(()));
        assert_eq!(m.load(8), Ok(v.to_bits()));
    }
}

#[test]
fn fresh_memory_is_zeroed() {
    let mut m = Machine::new(vec![], 16);
    assert_eq!(m.load(0), Ok(0));
    assert_eq!(m.load(8), Ok(0.0f64.to_bits()));
}

#[test]
fn out_of_bounds_store_and_load_fault() {
    let mut m = Machine::new(vec![], 16);
    assert_eq!(m.store(9, 1.0f64.to_bits()), Err(Fault::OutOfBoundsMemoryAccess));
    assert_eq!(m.load(16), Err(Fault::OutOfBoundsMemoryAccess));
    let mut tiny = Machine::new(vec![], 4);
    assert_eq!(tiny.load(0), Err(Fault::OutOfBoundsMemoryAccess));
}

#[test]
fn out_of_bounds_load_through_instructions_faults() {
    let mut m = Machine::new(vec![], 16);
    let code = vec![Instruction::Const(1.0e9f64.to_bits()), Instruction::Load];
    assert_eq!(m.execute(&code, &mut None, 0), Err(Fault::OutOfBoundsMemoryAccess));
}

#[test]
fn local_get_outside_any_call_is_unbound() {
    let mut m = Machine::new(vec![], 0);
    assert_eq!(m.execute(&vec![Instruction::LocalGet(0)], &mut None, 0), Err(Fault::UnboundLocal));
}

#[test]
fn local_index_past_the_parameters_is_unbound() {
    let f = Function::new(1, true, vec![Instruction::LocalGet(1)]);
    let mut m = Machine::new(vec![], 0);
    assert_eq!(m.call(&f, vec![1.0f64.to_bits()], 0), Err(Fault::UnboundLocal));
    let g = Function::new(
        1,
        false,
        vec![Instruction::Const(1.0f64.to_bits()), Instruction::LocalSet(3)],
    );
    assert_eq!(m.call(&g, vec![1.0f64.to_bits()], 0), Err(Fault::UnboundLocal));
}

#[test]
fn declared_return_with_empty_stack_is_a_missing_return_value() {
    let f = Function::new(0, true, vec![]);
    let mut m = Machine::new(vec![], 0);
    assert_eq!(m.call(&f, vec![], 0), Err(Fault::MissingReturnValue));
}

#[test]
fn unbounded_self_recursion_exhausts_the_call_depth() {
    let f = Function::new(0, false, vec![Instruction::CallFunc(0)]);
    let mut m = Machine::new(vec![f], 0);
    let code = vec![Instruction::CallFunc(0)];
    assert_eq!(m.execute(&code, &mut None, 5), Err(Fault::CallDepthExceeded));
}

#[test]
fn store_pops_value_then_address() {
    // address pushed first, value second
    let mut m = Machine::new(vec![], 32);
    let code = vec![
        Instruction::Const(16.0f64.to_bits()),
        Instruction::Const((-6.25f64).to_bits()),
        Instruction::Store,
    ];
    assert_eq!(m.execute(&code, &mut None, 0), Ok(()));
    assert_eq!(m.load(16), Ok((-6.25f64).to_bits()));
    assert_eq!(m.pop(), None);
}

#[test]
fn stack_underflow_inside_a_call_propagates() {
    let f = Function::new(0, false, vec![Instruction::Mul]);
    let mut m = Machine::new(vec![], 0);
    assert_eq!(m.call(&f, vec![], 0), Err(Fault::StackUnderflow));
}
