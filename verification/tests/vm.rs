use stackvm::Fault;
use stackvm::Function;
use stackvm::Instruction;
use stackvm::Machine;

#[test]
fn example() {
    let code = vec![
        Instruction::Const(2.0f64.to_bits()),
        Instruction::Const(3.0f64.to_bits()),
        Instruction::Const(0.1f64.to_bits()),
        Instruction::Mul,
        Instruction::Add,
    ];

    let mut m = Machine::new(vec![], 100);
    m.execute(&code, &mut None, 0).unwrap();
    println!("Result: {}", f64::from_bits(m.pop().unwrap()));
}

#[test]
fn example_variables() {
    let x_addr: f64 = 22.0;
    let v_addr: f64 = 42.0;

    let code = vec![
        Instruction::Const(x_addr.to_bits()),
        Instruction::Const(x_addr.to_bits()),
        Instruction::Load,
        Instruction::Const(v_addr.to_bits()),
        Instruction::Load,
        Instruction::Const(0.1f64.to_bits()),
        Instruction::Mul,
        Instruction::Add,
        Instruction::Store,
    ];

    let mut m = Machine::new(vec![], 65536);
    m.store(x_addr as usize, 2.0f64.to_bits()).unwrap();
    m.store(v_addr as usize, 3.0f64.to_bits()).unwrap();
    m.execute(&code, &mut None, 0).unwrap();
    println!("Result: {}", f64::from_bits(m.load(x_addr as usize).unwrap()));
}

#[test]
fn example_functions() {
    let update_position = Function::new(
        3,
        true,
        vec![
            Instruction::LocalGet(0), // x
            Instruction::LocalGet(1), // v
            Instruction::LocalGet(2), // dt
            Instruction::Mul,
            Instruction::Add,
        ],
    );

    let functions = vec![update_position];

    let x_addr: f64 = 22.0;
    let v_addr: f64 = 42.0;

    let code = vec![
        Instruction::Const(x_addr.to_bits()),
        Instruction::Const(x_addr.to_bits()),
        Instruction::Load,
        Instruction::Const(v_addr.to_bits()),
        Instruction::Load,
        Instruction::Const(0.1f64.to_bits()),
        Instruction::CallFunc(0), // update_position
        Instruction::Store,
    ];

    let mut m = Machine::new(functions, 65536);
    m.store(x_addr as usize, 2.0f64.to_bits()).unwrap();
    m.store(v_addr as usize, 3.0f64.to_bits()).unwrap();
    m.execute(&code, &mut None, 1).unwrap();
    println!("Result: {}", f64::from_bits(m.load(x_addr as usize).unwrap()));
}

#[test]
fn const_mul_add_leaves_exactly_the_sum() {
    let code = vec![
        Instruction::Const(2.0f64.to_bits()),
        Instruction::Const(3.0f64.to_bits()),
        Instruction::Const(0.1f64.to_bits()),
        Instruction::Mul,
        Instruction::Add,
    ];

    let mut m = Machine::new(vec![], 0);
    assert_eq!(m.execute(&code, &mut None, 0), Ok(()));
    assert_eq!(m.pop(), Some(2.3f64.to_bits()));
    assert_eq!(m.pop(), None);
}

#[test]
fn load_store_through_instructions() {
    let code = vec![
        Instruction::Const(22.0f64.to_bits()),
        Instruction::Const(22.0f64.to_bits()),
        Instruction::Load,
        Instruction::Const(42.0f64.to_bits()),
        Instruction::Load,
        Instruction::Const(0.1f64.to_bits()),
        Instruction::Mul,
        Instruction::Add,
        Instruction::Store,
    ];

    let mut m = Machine::new(vec![], 65536);
    assert_eq!(m.store(22, 2.0f64.to_bits()), Ok(()));
    assert_eq!(m.store(42, 3.0f64.to_bits()), Ok(()));
    assert_eq!(m.execute(&code, &mut None, 0), Ok(()));
    assert_eq!(m.load(22), Ok(2.3f64.to_bits()));
    assert_eq!(f64::from_bits(m.load(22).unwrap()), 2.3);
}

#[test]
fn call_binds_arguments_to_locals() {
    let f = Function::new(
        3,
        true,
        vec![
            Instruction::LocalGet(0),
            Instruction::LocalGet(1),
            Instruction::LocalGet(2),
            Instruction::Mul,
            Instruction::Add,
        ],
    );
    let mut m = Machine::new(vec![], 0);
    let args = vec![2.0f64.to_bits(), 3.0f64.to_bits(), 0.1f64.to_bits()];
    assert_eq!(m.call(&f, args, 0), Ok(Some(2.3f64.to_bits())));
}

#[test]
fn add_on_empty_stack_is_a_stack_underflow() {
    let mut m = Machine::new(vec![], 0);
    assert_eq!(m.execute(&vec![Instruction::Add], &mut None, 0), Err(Fault::StackUnderflow));
}

#[test]
fn wrong_argument_count_is_an_arity_mismatch() {
    let f = Function::new(2, true, vec![Instruction::LocalGet(0), Instruction::LocalGet(1), Instruction::Add]);
    let mut m = Machine::new(vec![], 0);
    assert_eq!(m.call(&f, vec![1.0f64.to_bits()], 0), Err(Fault::ArityMismatch));
}

#[test]
fn recursive_accumulator_returns_expected_sum() {
    // A chain of calls, each adding 1 to its argument and handing the rest of
    // the work to the next function: the bytecode analogue of recursion with
    // decreasing work.
    let base = Function::new(1, true, vec![Instruction::LocalGet(0)]);
    let step = |next: usize| {
        Function::new(
            1,
            true,
            vec![
                Instruction::LocalGet(0),
                Instruction::Const(1.0f64.to_bits()),
                Instruction::Add,
                Instruction::CallFunc(next),
            ],
        )
    };
    let functions = vec![base, step(0), step(1), step(2)];
    let mut m = Machine::new(functions, 0);
    let code = vec![Instruction::Const(5.0f64.to_bits()), Instruction::CallFunc(3)];
    assert_eq!(m.execute(&code, &mut None, 8), Ok(()));
    assert_eq!(m.pop(), Some(8.0f64.to_bits()));
}

#[test]
fn nested_call_does_not_disturb_caller_locals() {
    // The inner function reads its own local 0, not the caller's; after the
    // call the caller still sees its own argument.
    let inner = Function::new(2, true, vec![Instruction::LocalGet(0)]);
    let outer = Function::new(
        1,
        true,
        vec![
            Instruction::Const(3.0f64.to_bits()),
            Instruction::Const(4.0f64.to_bits()),
            Instruction::CallFunc(0),
            Instruction::LocalGet(0),
            Instruction::Add,
        ],
    );
    let mut m = Machine::new(vec![inner, outer], 0);
    let code = vec![Instruction::Const(5.0f64.to_bits()), Instruction::CallFunc(1)];
    assert_eq!(m.execute(&code, &mut None, 2), Ok(()));
    // inner returns 3.0 (its own first argument), outer adds its own 5.0
    assert_eq!(m.pop(), Some(8.0f64.to_bits()));
}

#[test]
fn local_set_rebinds_a_local() {
    let f = Function::new(
        1,
        true,
        vec![
            Instruction::Const(7.5f64.to_bits()),
            Instruction::LocalSet(0),
            Instruction::LocalGet(0),
        ],
    );
    let mut m = Machine::new(vec![], 0);
    assert_eq!(m.call(&f, vec![1.0f64.to_bits()], 0), Ok(Some(7.5f64.to_bits())));
}

#[test]
fn push_and_pop_are_last_in_first_out() {
    let mut m = Machine::new(vec![], 0);
    m.push(1.0f64.to_bits());
    m.push((-2.5f64).to_bits());
    assert_eq!(m.pop(), Some((-2.5f64).to_bits()));
    assert_eq!(m.pop(), Some(1.0f64.to_bits()));
    assert_eq!(m.pop(), None);
}
