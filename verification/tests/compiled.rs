use std::collections::HashMap;

use vm_rust::allocator::DatumAllocator;
use vm_rust::compiled::{compile, is_worth_compiling, run, run_handler, run_handler_resumable, CompiledHandler, IrExit, IrOp};
use vm_rust::datum::Datum;
use vm_rust::handler::{Bytecode, HandlerDef, OpCode};
use vm_rust::scope::{Scope, StackDatum};

/// Top of the scope's operand stack, as an int.
fn stack_top_int(scope: &Scope, allocator: &DatumAllocator) -> i32 {
    match scope.stack.last() {
        Some(StackDatum::Int(n)) => *n,
        Some(StackDatum::Ref(r)) => match allocator.get_datum(r) {
            Datum::Int(n) => n,
            Datum::Void => 0,
            _ => panic!("stack top is not an integer"),
        },
        Some(StackDatum::Void) | None => 0,
    }
}

#[test]
fn run_handler_param_plus_one() {
    let mut allocator = DatumAllocator::new();
    let mut scope = Scope::new();
    let arg = allocator.alloc_datum(Datum::Int(5));
    scope.args.push(arg);
    // return param(0) + 1
    let compiled = CompiledHandler {
        ops: vec![IrOp::GetParam(0), IrOp::PushInt(1), IrOp::Add],
        n_locals: 0,
    };
    run_handler(&compiled, &mut scope, &mut allocator, false).unwrap();
    assert_eq!(stack_top_int(&scope, &allocator), 6);
}

#[test]
fn run_handler_counted_loop_sum() {
    let mut allocator = DatumAllocator::new();
    let mut scope = Scope::new();
    // sum=0; repeat with j=1 to 10 { sum = sum + j }; return sum  => 55
    // locals: 0=sum, 1=j
    let ops = vec![
        IrOp::PushInt(0), IrOp::SetLocal(0),
        IrOp::PushInt(1), IrOp::SetLocal(1),
        IrOp::GetLocal(1), IrOp::PushInt(10), IrOp::LtEq, IrOp::JmpIfZero(17),
        IrOp::GetLocal(0), IrOp::GetLocal(1), IrOp::Add, IrOp::SetLocal(0),
        IrOp::GetLocal(1), IrOp::PushInt(1), IrOp::Add, IrOp::SetLocal(1),
        IrOp::Jmp(4),
        IrOp::GetLocal(0),
    ];
    let compiled = CompiledHandler { ops, n_locals: 2 };
    run_handler(&compiled, &mut scope, &mut allocator, false).unwrap();
    assert_eq!(stack_top_int(&scope, &allocator), 55);
}

#[test]
fn compile_escapes_unsupported_opcode_and_resumes() {
    // local0 = 5 ; <getchunk: interpreter-only> ; return local0
    let handler = HandlerDef {
        name_id: 0,
        bytecode_array: vec![
            Bytecode::new(OpCode::PushInt8, 5, 0),
            Bytecode::new(OpCode::SetLocal, 0, 1),
            Bytecode::new(OpCode::GetChunk, 0, 2),
            Bytecode::new(OpCode::GetLocal, 0, 3),
        ],
        bytecode_index_map: HashMap::new(),
        argument_name_ids: vec![],
        local_name_ids: vec![0],
        global_name_ids: vec![],
    };
    let compiled = compile(&handler, 1).expect("escapes, never rejects");
    assert_eq!(compiled.ops.len(), handler.bytecode_array.len(), "IR must be 1:1");
    assert!(matches!(compiled.ops[2], IrOp::Escape));

    let mut allocator = DatumAllocator::new();
    let mut scope = Scope::new();

    // First run stops AT the escaped op (pc == its bytecode index).
    match run_handler_resumable(&compiled, &mut scope, &mut allocator, false).unwrap() {
        IrExit::Escape => {}
        other => panic!("expected an escape, got {}", match other {
            IrExit::Done => "Done",
            IrExit::BackJump => "BackJump",
            _ => "?",
        }),
    }

    assert!(
        matches!(scope.local(0), StackDatum::Int(5)),
        "the IR must write locals straight into the scope"
    );
    assert!(
        scope.local_is_assigned(0),
        "an IR write must mark the slot assigned, or do/eval resolution breaks"
    );
    assert_eq!(
        scope.bytecode_index, 2,
        "escape must leave bytecode_index on the op the interpreter runs"
    );

    // The driver would run that op and advance; do just the advance.
    scope.bytecode_index = 3;

    // Resuming continues with locals intact and returns 5.
    match run_handler_resumable(&compiled, &mut scope, &mut allocator, false).unwrap() {
        IrExit::Done => {}
        IrExit::Escape => panic!("expected completion, got Escape"),
        IrExit::BackJump => panic!("expected completion, got BackJump"),
    }
    assert_eq!(stack_top_int(&scope, &allocator), 5, "dense locals must survive the escape");
}

#[test]
fn compile_resolves_jumps_through_the_index_map() {
    let mut map = HashMap::new();
    map.insert(0usize, 0usize);
    map.insert(2usize, 1usize);
    map.insert(5usize, 2usize);
    let handler = HandlerDef {
        name_id: 0,
        bytecode_array: vec![
            Bytecode::new(OpCode::PushZero, 0, 0),
            Bytecode::new(OpCode::JmpIfZ, 3, 2),
            Bytecode::new(OpCode::EndRepeat, 5, 5),
        ],
        bytecode_index_map: map,
        argument_name_ids: vec![],
        local_name_ids: vec![],
        global_name_ids: vec![],
    };
    let compiled = compile(&handler, 1).unwrap();
    assert!(matches!(compiled.ops[0], IrOp::PushInt(0)));
    assert!(matches!(compiled.ops[1], IrOp::JmpIfZero(2)));
    assert!(matches!(compiled.ops[2], IrOp::Jmp(0)));
}

#[test]
fn compile_rejects_a_jump_to_no_bytecode() {
    let handler = HandlerDef {
        name_id: 0,
        bytecode_array: vec![Bytecode::new(OpCode::Jmp, 7, 0)],
        bytecode_index_map: HashMap::new(),
        argument_name_ids: vec![],
        local_name_ids: vec![],
        global_name_ids: vec![],
    };
    assert!(compile(&handler, 1).is_none());
}

#[test]
fn compile_divides_local_operands_by_the_multiplier() {
    let handler = HandlerDef {
        name_id: 0,
        bytecode_array: vec![
            Bytecode::new(OpCode::GetLocal, 12, 0),
            Bytecode::new(OpCode::SetLocal, 6, 2),
            Bytecode::new(OpCode::GetParam, 18, 4),
        ],
        bytecode_index_map: HashMap::new(),
        argument_name_ids: vec![],
        local_name_ids: vec![1, 2, 3],
        global_name_ids: vec![],
    };
    let compiled = compile(&handler, 6).unwrap();
    assert!(matches!(compiled.ops[0], IrOp::GetLocal(2)));
    assert!(matches!(compiled.ops[1], IrOp::SetLocal(1)));
    assert!(matches!(compiled.ops[2], IrOp::GetParam(3)));
    assert_eq!(compiled.n_locals, 3);
}

#[test]
fn worth_compiling_needs_eight_ops_and_few_escapes() {
    let short = CompiledHandler { ops: vec![IrOp::Add; 7], n_locals: 0 };
    assert!(!is_worth_compiling(&short));
    let mut ops = vec![IrOp::Escape; 5];
    ops.extend(vec![IrOp::Add; 5]);
    // 50% escapes: worth it.
    assert!(is_worth_compiling(&CompiledHandler { ops: ops.clone(), n_locals: 0 }));
    let mut mostly = vec![IrOp::Escape; 7];
    mostly.extend(vec![IrOp::Add; 3]);
    // 70% escapes: not worth it.
    assert!(!is_worth_compiling(&CompiledHandler { ops: mostly, n_locals: 0 }));
}

#[test]
fn back_jump_goes_to_the_driver_when_input_was_polled() {
    let mut allocator = DatumAllocator::new();
    let mut scope = Scope::new();
    let compiled = CompiledHandler { ops: vec![IrOp::PushInt(1), IrOp::Pop(1), IrOp::Jmp(0)], n_locals: 0 };
    let exit = run_handler_resumable(&compiled, &mut scope, &mut allocator, true).unwrap();
    assert_eq!(exit, IrExit::BackJump);
    assert_eq!(scope.bytecode_index, 0);
}

#[test]
fn back_jump_goes_to_the_driver_every_4096_iterations() {
    let mut allocator = DatumAllocator::new();
    let mut scope = Scope::new();
    // An endless loop that counts its iterations in local 0.
    let compiled = CompiledHandler {
        ops: vec![IrOp::GetLocal(0), IrOp::PushInt(1), IrOp::Add, IrOp::SetLocal(0), IrOp::Jmp(0)],
        n_locals: 1,
    };
    let exit = run_handler_resumable(&compiled, &mut scope, &mut allocator, false).unwrap();
    assert_eq!(exit, IrExit::BackJump);
    // The first `VOID + 1` goes through Lingo arithmetic, so the count is stored.
    let count = match scope.local(0) {
        StackDatum::Int(n) => n,
        StackDatum::Ref(r) => match allocator.get_datum(&r) {
            Datum::Int(n) => n,
            _ => panic!("the counter is not an integer"),
        },
        StackDatum::Void => panic!("the counter was never set"),
    };
    assert_eq!(count, 4096);
    assert_eq!(scope.bytecode_index, 0);
    assert!(run_handler(&compiled, &mut scope, &mut allocator, false).is_err());
}

#[test]
fn ret_clears_the_stack_and_returns_void() {
    let mut allocator = DatumAllocator::new();
    let mut scope = Scope::new();
    let compiled = CompiledHandler { ops: vec![IrOp::PushInt(3), IrOp::Ret, IrOp::PushInt(4)], n_locals: 0 };
    assert_eq!(run_handler_resumable(&compiled, &mut scope, &mut allocator, false).unwrap(), IrExit::Done);
    assert!(scope.stack.is_empty());
    assert_eq!(scope.bytecode_index, 1);
}

#[test]
fn strings_are_copied_into_locals() {
    let mut allocator = DatumAllocator::new();
    let mut scope = Scope::new();
    let s = allocator.alloc_datum(Datum::String("abc".to_string()));
    scope.args.push(s);
    let compiled = CompiledHandler { ops: vec![IrOp::GetParam(0), IrOp::SetLocal(0)], n_locals: 1 };
    run_handler(&compiled, &mut scope, &mut allocator, false).unwrap();
    match scope.local(0) {
        StackDatum::Ref(r) => {
            assert_ne!(r.unwrap(), s.unwrap());
            assert!(matches!(allocator.get_datum(&r), Datum::String(ref t) if t == "abc"));
        }
        _ => panic!("expected a stored string"),
    }
}

#[test]
fn non_integer_operands_go_through_lingo_arithmetic() {
    let mut allocator = DatumAllocator::new();
    let mut scope = Scope::new();
    let p = allocator.alloc_datum(Datum::Point(1, 2));
    scope.args.push(p);
    let compiled = CompiledHandler { ops: vec![IrOp::GetParam(0), IrOp::PushInt(3), IrOp::Mul], n_locals: 0 };
    run_handler(&compiled, &mut scope, &mut allocator, false).unwrap();
    match scope.stack.last() {
        Some(StackDatum::Ref(r)) => assert!(matches!(allocator.get_datum(r), Datum::Point(3, 6))),
        _ => panic!("expected a stored point"),
    }
}

#[test]
fn a_failed_operation_is_a_script_error() {
    let mut allocator = DatumAllocator::new();
    let mut scope = Scope::new();
    let s = allocator.alloc_datum(Datum::String("x".to_string()));
    scope.args.push(s);
    let compiled = CompiledHandler { ops: vec![IrOp::GetParam(0), IrOp::JmpIfZero(0)], n_locals: 0 };
    let err = run_handler_resumable(&compiled, &mut scope, &mut allocator, false).unwrap_err();
    assert_eq!(err.message, "datum has no integer value");
    assert_eq!(scope.bytecode_index, 0);
}

#[test]
fn run_handler_hands_on_the_error_of_the_run() {
    let mut allocator = DatumAllocator::new();
    let mut scope = Scope::new();
    let s = allocator.alloc_datum(Datum::String("x".to_string()));
    scope.args.push(s);
    let compiled = CompiledHandler { ops: vec![IrOp::GetParam(0), IrOp::JmpIfZero(0)], n_locals: 0 };
    let err = run_handler(&compiled, &mut scope, &mut allocator, false).unwrap_err();
    assert_eq!(err.message, "datum has no integer value");
}

#[test]
fn compile_needs_no_multiplier_without_slot_operands() {
    let handler = HandlerDef {
        name_id: 0,
        bytecode_array: vec![Bytecode::new(OpCode::PushInt8, 3, 0), Bytecode::new(OpCode::Ret, 0, 2)],
        bytecode_index_map: HashMap::new(),
        argument_name_ids: vec![],
        local_name_ids: vec![],
        global_name_ids: vec![],
    };
    let compiled = compile(&handler, 0).unwrap();
    assert!(matches!(compiled.ops[0], IrOp::PushInt(3)));
    assert!(matches!(compiled.ops[1], IrOp::Ret));
}

#[test]
fn bench_runner_sums_a_counted_loop() {
    let ops = vec![
        IrOp::PushInt(0), IrOp::SetLocal(0),
        IrOp::PushInt(1), IrOp::SetLocal(1),
        IrOp::GetLocal(1), IrOp::PushInt(10), IrOp::LtEq, IrOp::JmpIfZero(17),
        IrOp::GetLocal(0), IrOp::GetLocal(1), IrOp::Add, IrOp::SetLocal(0),
        IrOp::GetLocal(1), IrOp::PushInt(1), IrOp::Add, IrOp::SetLocal(1),
        IrOp::Jmp(4),
        IrOp::GetLocal(0), IrOp::Ret,
    ];
    let compiled = CompiledHandler { ops, n_locals: 2 };
    assert!(matches!(run(&compiled, &[]), StackDatum::Int(55)));
    let seeded = CompiledHandler { ops: vec![IrOp::GetLocal(0), IrOp::Ret], n_locals: 0 };
    assert!(matches!(run(&seeded, &[StackDatum::Int(9)]), StackDatum::Int(9)));
}

#[test]
fn integer_fast_path_agrees_with_lingo_arithmetic() {
    use_fast_path_case(IrOp::Add, i32::MAX, 1);
    use_fast_path_case(IrOp::Sub, i32::MIN, 1);
    use_fast_path_case(IrOp::Mul, 65536, 65536);
}

fn use_fast_path_case(op: IrOp, x: i32, y: i32) {
    let mut allocator = DatumAllocator::new();
    let mut scope = Scope::new();
    let compiled = CompiledHandler { ops: vec![IrOp::PushInt(x), IrOp::PushInt(y), op], n_locals: 0 };
    run_handler(&compiled, &mut scope, &mut allocator, false).unwrap();
    let lingo = match op {
        IrOp::Add => vm_rust::datum_operations::add_datums(Datum::Int(x), Datum::Int(y)),
        IrOp::Sub => vm_rust::datum_operations::subtract_datums(Datum::Int(x), Datum::Int(y)),
        _ => {
            let a = allocator.alloc_datum(Datum::Int(x));
            let b = allocator.alloc_datum(Datum::Int(y));
            vm_rust::datum_operations::multiply_datums(&a, &b, &allocator)
        }
    };
    match (scope.stack.last(), lingo.unwrap()) {
        (Some(StackDatum::Int(fast)), Datum::Int(slow)) => assert_eq!(*fast, slow),
        _ => panic!("expected integers from both paths"),
    }
}
