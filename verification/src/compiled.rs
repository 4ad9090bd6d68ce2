//! A register IR for handlers: `compile` turns a handler's bytecode into one
//! pre-decoded `IrOp` per bytecode (unsupported opcodes become `Escape`, which
//! hands that one op to the interpreter), and `run_handler_resumable` runs it
//! on the scope's own operand stack and local file.
use vstd::prelude::*;
use std::collections::HashMap;
use crate::handler::{Bytecode, HandlerDef, OpCode};
use crate::allocator::DatumAllocator;
use crate::compare::{datum_equals, datum_equals_spec, datum_greater_than, datum_greater_than_spec, datum_is_zero, datum_is_zero_spec, datum_less_than, datum_less_than_spec};
use crate::datum::{Datum, DatumView, ScriptError, ScriptErrorCode, view_items, lemma_view_items, lemma_view_items_push};
use crate::datum_operations::{ArithOp, arith_spec, arith_ref, lemma_arith_no_panic, Outcome, invalid_operands_message, unrepresentable_message};
use crate::datum_ref::{DatumId, DatumRef};
use crate::scope::{Scope, StackDatum, local_at, locals_after_set, padded};

verus! {

broadcast use {vstd::std_specs::hash::group_hash_axioms, lemma_view_items, lemma_view_items_push};

/// A pre-decoded IR instruction. Jump targets are IR indices, which are
/// bytecode indices since the IR is one op per bytecode.
#[derive(Clone, Copy, Debug, PartialEq, Eq, Structural)]
pub enum IrOp {
    PushInt(i32),
    GetLocal(u16),
    SetLocal(u16),
    GetParam(u16),
    Add,
    Sub,
    Mul,
    Lt,
    LtEq,
    Gt,
    GtEq,
    Eq,
    NtEq,
    Jmp(usize),
    JmpIfZero(usize),
    Pop(usize),
    Ret,
    /// Run this bytecode through the interpreter and come back.
    Escape,
}

/// A handler compiled to the IR.
pub struct CompiledHandler {
    pub ops: Vec<IrOp>,
    pub n_locals: usize,
}

/// How a run of the IR ended.
#[derive(Clone, Copy, Debug, PartialEq, Eq, Structural)]
pub enum IrExit {
    /// `Ret`, or the op array ran out.
    Done,
    /// An `Escape`: the scope's bytecode index is the op the interpreter runs.
    Escape,
    /// A backward jump the driver must see; the bytecode index is its target.
    BackJump,
}

/// Where a relative jump from `pos` by `delta` lands, as the player computes
/// it: the sum taken modulo the width of `usize`.
pub open spec fn jump_dest(pos: usize, delta: int) -> usize {
    (pos as int + delta) as usize
}

/// The IR jump to the bytecode at `dest`, if the handler has one there.
pub open spec fn jump_to(map: Map<usize, usize>, dest: usize, conditional: bool) -> Option<IrOp> {
    if map.contains_key(dest) {
        if conditional {
            Some(IrOp::JmpIfZero(map[dest]))
        } else {
            Some(IrOp::Jmp(map[dest]))
        }
    } else {
        None
    }
}

/// The slot a local or parameter operand names.
pub open spec fn slot_of(obj: i64, multiplier: u32) -> u16 {
    ((obj as u32) / multiplier) as u16
}

/// The IR op for one bytecode; `None` for a jump to a position the handler
/// has no bytecode at.
pub open spec fn compile_op(b: Bytecode, map: Map<usize, usize>, multiplier: u32) -> Option<IrOp> {
    match b.opcode {
        OpCode::PushInt8 | OpCode::PushInt16 | OpCode::PushInt32 => Some(IrOp::PushInt(b.obj as i32)),
        OpCode::PushZero => Some(IrOp::PushInt(0)),
        OpCode::GetLocal => Some(IrOp::GetLocal(slot_of(b.obj, multiplier))),
        OpCode::SetLocal => Some(IrOp::SetLocal(slot_of(b.obj, multiplier))),
        OpCode::GetParam => Some(IrOp::GetParam(slot_of(b.obj, multiplier))),
        OpCode::Add => Some(IrOp::Add),
        OpCode::Sub => Some(IrOp::Sub),
        OpCode::Mul => Some(IrOp::Mul),
        OpCode::Lt => Some(IrOp::Lt),
        OpCode::LtEq => Some(IrOp::LtEq),
        OpCode::Gt => Some(IrOp::Gt),
        OpCode::GtEq => Some(IrOp::GtEq),
        OpCode::Eq => Some(IrOp::Eq),
        OpCode::NtEq => Some(IrOp::NtEq),
        OpCode::Jmp => jump_to(map, jump_dest(b.pos, b.obj as int), false),
        OpCode::JmpIfZ => jump_to(map, jump_dest(b.pos, b.obj as int), true),
        OpCode::EndRepeat => jump_to(map, jump_dest(b.pos, -(b.obj as int)), false),
        OpCode::Pop => Some(IrOp::Pop(b.obj as usize)),
        OpCode::Ret => Some(IrOp::Ret),
        _ => Some(IrOp::Escape),
    }
}

/// Whether an opcode names a local or parameter slot.
pub open spec fn names_slot(op: OpCode) -> bool {
    op is GetLocal || op is SetLocal || op is GetParam
}

/// A multiplier the handler's slot operands can be divided by: positive,
/// or any where no bytecode names a slot.
pub open spec fn multiplier_usable(bc: Seq<Bytecode>, multiplier: u32) -> bool {
    multiplier > 0 || forall|i: int| 0 <= i < bc.len() ==> !names_slot(#[trigger] bc[i].opcode)
}

/// Every bytecode of the handler compiles.
pub open spec fn compiles(bc: Seq<Bytecode>, map: Map<usize, usize>, multiplier: u32) -> bool {
    forall|i: int| 0 <= i < bc.len() ==> #[trigger] compile_op(bc[i], map, multiplier) is Some
}

/// Compiling keeps each bytecode's meaning: a constant push pushes the same
/// integer; local and parameter operands name the slot they divide to; each
/// arithmetic and comparison opcode becomes the IR op of the same name; a
/// jump goes to the IR op the handler's index map gives for its target (the
/// position plus the operand, or minus it for `EndRepeat`) and fails to
/// compile where the map has none; `Pop` and `Ret` stay; every other opcode
/// escapes to the interpreter.
pub proof fn lemma_compile_keeps_meaning(b: Bytecode, map: Map<usize, usize>, m: u32)
    ensures
        (b.opcode is PushInt8 || b.opcode is PushInt16 || b.opcode is PushInt32) ==> compile_op(b, map, m)
            == Some(IrOp::PushInt(b.obj as i32)),
        b.opcode is PushZero ==> compile_op(b, map, m) == Some(IrOp::PushInt(0)),
        m > 0 && b.opcode is GetLocal ==> compile_op(b, map, m) == Some(
            IrOp::GetLocal(((b.obj as u32) / m) as u16),
        ),
        m > 0 && b.opcode is SetLocal ==> compile_op(b, map, m) == Some(
            IrOp::SetLocal(((b.obj as u32) / m) as u16),
        ),
        m > 0 && b.opcode is GetParam ==> compile_op(b, map, m) == Some(
            IrOp::GetParam(((b.obj as u32) / m) as u16),
        ),
        b.opcode is Add ==> compile_op(b, map, m) == Some(IrOp::Add),
        b.opcode is Sub ==> compile_op(b, map, m) == Some(IrOp::Sub),
        b.opcode is Mul ==> compile_op(b, map, m) == Some(IrOp::Mul),
        b.opcode is Lt ==> compile_op(b, map, m) == Some(IrOp::Lt),
        b.opcode is LtEq ==> compile_op(b, map, m) == Some(IrOp::LtEq),
        b.opcode is Gt ==> compile_op(b, map, m) == Some(IrOp::Gt),
        b.opcode is GtEq ==> compile_op(b, map, m) == Some(IrOp::GtEq),
        b.opcode is Eq ==> compile_op(b, map, m) == Some(IrOp::Eq),
        b.opcode is NtEq ==> compile_op(b, map, m) == Some(IrOp::NtEq),
        b.opcode is Pop ==> compile_op(b, map, m) == Some(IrOp::Pop(b.obj as usize)),
        b.opcode is Ret ==> compile_op(b, map, m) == Some(IrOp::Ret),
        b.opcode is Jmp ==> ({
            let dest = ((b.pos as int) + (b.obj as int)) as usize;
            compile_op(b, map, m) == if map.contains_key(dest) {
                Some(IrOp::Jmp(map[dest]))
            } else {
                None
            }
        }),
        b.opcode is JmpIfZ ==> ({
            let dest = ((b.pos as int) + (b.obj as int)) as usize;
            compile_op(b, map, m) == if map.contains_key(dest) {
                Some(IrOp::JmpIfZero(map[dest]))
            } else {
                None
            }
        }),
        b.opcode is EndRepeat ==> ({
            let dest = ((b.pos as int) - (b.obj as int)) as usize;
            compile_op(b, map, m) == if map.contains_key(dest) {
                Some(IrOp::Jmp(map[dest]))
            } else {
                None
            }
        }),
        (b.opcode is GetChunk || b.opcode is Div || b.opcode is Mod || b.opcode is Inv || b.opcode is JoinStr
            || b.opcode is JoinPadStr || b.opcode is ContainsStr || b.opcode is Not || b.opcode is And
            || b.opcode is Or || b.opcode is PushCons || b.opcode is PushSymb || b.opcode is GetGlobal
            || b.opcode is SetGlobal || b.opcode is ExtCall || b.opcode is ObjCall || b.opcode is Put)
            ==> compile_op(b, map, m) == Some(IrOp::Escape),
{
}

fn lookup_jump(map: &HashMap<usize, usize>, dest: usize, conditional: bool) -> (r: Option<IrOp>)
    ensures
        r == jump_to(map@, dest, conditional),
{
    match map.get(&dest) {
        Some(t) => if conditional {
            Some(IrOp::JmpIfZero(*t))
        } else {
            Some(IrOp::Jmp(*t))
        },
        None => None,
    }
}

fn compile_one(b: &Bytecode, map: &HashMap<usize, usize>, multiplier: u32) -> (r: Option<IrOp>)
    requires
        multiplier > 0 || !names_slot(b.opcode),
    ensures
        r == compile_op(*b, map@, multiplier),
{
    match b.opcode {
        OpCode::PushInt8 | OpCode::PushInt16 | OpCode::PushInt32 => Some(IrOp::PushInt(b.obj as i32)),
        OpCode::PushZero => Some(IrOp::PushInt(0)),
        OpCode::GetLocal => Some(IrOp::GetLocal(((b.obj as u32) / multiplier) as u16)),
        OpCode::SetLocal => Some(IrOp::SetLocal(((b.obj as u32) / multiplier) as u16)),
        OpCode::GetParam => Some(IrOp::GetParam(((b.obj as u32) / multiplier) as u16)),
        OpCode::Add => Some(IrOp::Add),
        OpCode::Sub => Some(IrOp::Sub),
        OpCode::Mul => Some(IrOp::Mul),
        OpCode::Lt => Some(IrOp::Lt),
        OpCode::LtEq => Some(IrOp::LtEq),
        OpCode::Gt => Some(IrOp::Gt),
        OpCode::GtEq => Some(IrOp::GtEq),
        OpCode::Eq => Some(IrOp::Eq),
        OpCode::NtEq => Some(IrOp::NtEq),
        OpCode::Jmp => lookup_jump(map, ((b.pos as i128) + (b.obj as i128)) as usize, false),
        OpCode::JmpIfZ => lookup_jump(map, ((b.pos as i128) + (b.obj as i128)) as usize, true),
        OpCode::EndRepeat => lookup_jump(map, ((b.pos as i128) - (b.obj as i128)) as usize, false),
        OpCode::Pop => Some(IrOp::Pop(b.obj as usize)),
        OpCode::Ret => Some(IrOp::Ret),
        _ => Some(IrOp::Escape),
    }
}

/// Compiles a handler to the IR, one op per bytecode; `None` if a jump
/// lands where the handler has no bytecode. Local and parameter operands are
/// divided by `multiplier`, the operand width of the file's format (which
/// must then not be 0).
pub fn compile(handler: &HandlerDef, multiplier: u32) -> (r: Option<CompiledHandler>)
    requires
        multiplier_usable(handler.bytecode_array@, multiplier),
    ensures
        r is Some <==> compiles(handler.bytecode_array@, handler.bytecode_index_map@, multiplier),
        r matches Some(c) ==> {
            &&& c.ops.len() == handler.bytecode_array.len()
            &&& forall|i: int|
                0 <= i < c.ops.len() ==> compile_op(
                    handler.bytecode_array@[i],
                    handler.bytecode_index_map@,
                    multiplier,
                ) == Some(#[trigger] c.ops@[i])
            &&& c.n_locals == handler.local_name_ids.len()
        },
{
    let bc = &handler.bytecode_array;
    let mut ops: Vec<IrOp> = Vec::new();
    let mut i: usize = 0;
    while i < bc.len()
        invariant
            i <= bc.len(),
            bc@ == handler.bytecode_array@,
            multiplier_usable(bc@, multiplier),
            ops.len() == i,
            forall|k: int|
                0 <= k < i ==> compile_op(bc@[k], handler.bytecode_index_map@, multiplier) == Some(
                    #[trigger] ops@[k],
                ),
        decreases bc.len() - i,
    {
        let b = bc[i];
        let compiled = compile_one(&b, &handler.bytecode_index_map, multiplier);
        match compiled {
            Some(op) => ops.push(op),
            None => {
                assert(compile_op(handler.bytecode_array@[i as int], handler.bytecode_index_map@, multiplier) is None);
                return None;
            },
        }
        i = i + 1;
    }
    assert forall|k: int| 0 <= k < bc.len() implies #[trigger] compile_op(
        handler.bytecode_array@[k],
        handler.bytecode_index_map@,
        multiplier,
    ) is Some by {
        assert(compile_op(bc@[k], handler.bytecode_index_map@, multiplier) == Some(ops@[k]));
    }
    Some(CompiledHandler { ops, n_locals: handler.local_name_ids.len() })
}

/// Largest share of escaped ops, in percent, a handler may have and still be
/// worth compiling.
pub const MAX_ESCAPE_PERCENT: usize = 65;

/// The number of `Escape` ops.
pub open spec fn escape_count(ops: Seq<IrOp>) -> nat
    decreases ops.len(),
{
    if ops.len() == 0 {
        0
    } else {
        escape_count(ops.drop_last()) + if ops.last() is Escape {
            1nat
        } else {
            0nat
        }
    }
}

/// The escapes of a sequence of ops number from none, where no op escapes,
/// to all of them, where every op does.
pub proof fn lemma_escape_count_bounds(ops: Seq<IrOp>)
    ensures
        escape_count(ops) <= ops.len(),
        (forall|i: int| 0 <= i < ops.len() ==> !(#[trigger] ops[i] is Escape)) ==> escape_count(ops) == 0,
        (forall|i: int| 0 <= i < ops.len() ==> #[trigger] ops[i] is Escape) ==> escape_count(ops) == ops.len(),
    decreases ops.len(),
{
    if ops.len() > 0 {
        let rest = ops.drop_last();
        lemma_escape_count_bounds(rest);
        assert(forall|i: int| 0 <= i < rest.len() ==> rest[i] == ops[i]);
        assert(ops[ops.len() - 1] == ops.last());
    }
}

/// A handler of at least 8 ops none of which escapes is worth compiling;
/// one under 8 ops, or one whose ops all escape, is not. Escapes may make
/// up less than 65 percent of the ops.
pub proof fn lemma_worth_compiling_bounds(ops: Seq<IrOp>)
    ensures
        MAX_ESCAPE_PERCENT == 65,
        ops.len() >= 8 && (forall|i: int| 0 <= i < ops.len() ==> !(#[trigger] ops[i] is Escape)) ==> (ops.len() >= 8
            && escape_count(ops) * 100 < ops.len() * MAX_ESCAPE_PERCENT),
        (forall|i: int| 0 <= i < ops.len() ==> #[trigger] ops[i] is Escape) ==> !(escape_count(ops) * 100
            < ops.len() * MAX_ESCAPE_PERCENT),
{
    lemma_escape_count_bounds(ops);
}

/// A handler is worth compiling when it has at least 8 ops and escapes make
/// up less than `MAX_ESCAPE_PERCENT` percent of them.
pub fn is_worth_compiling(c: &CompiledHandler) -> (r: bool)
    ensures
        r == (c.ops.len() >= 8 && escape_count(c.ops@) * 100 < c.ops.len() * MAX_ESCAPE_PERCENT),
{
    if c.ops.len() < 8 {
        return false;
    }
    let mut escapes: usize = 0;
    let mut i: usize = 0;
    while i < c.ops.len()
        invariant
            i <= c.ops.len(),
            escapes == escape_count(c.ops@.take(i as int)),
            escapes <= i,
        decreases c.ops.len() - i,
    {
        assert(c.ops@.take(i as int + 1).drop_last() =~= c.ops@.take(i as int));
        if let IrOp::Escape = c.ops[i] {
            escapes = escapes + 1;
        }
        i = i + 1;
    }
    assert(c.ops@.take(c.ops.len() as int) =~= c.ops@);
    (escapes as u128) * 100 < (c.ops.len() as u128) * (MAX_ESCAPE_PERCENT as u128)
}


// ---- The IR's semantics ----

/// What the IR sees of a frame and the datum store while it runs.
pub struct IrState {
    pub stack: Seq<StackDatum>,
    pub locals: Seq<StackDatum>,
    pub assigned: Seq<bool>,
    /// The values of the stored datums, by id.
    pub heap: Seq<DatumView>,
    pub pc: nat,
    pub return_value: DatumRef,
}

/// How a run of the IR ends: an exit with the final state (its `pc` is the
/// bytecode index the run leaves), or a script error with the state it left.
pub enum IrOutcome {
    Exit(IrExit, IrState),
    Failed(ScriptErrorCode, Seq<char>, IrState),
}

/// The value of an operand.
pub open spec fn stack_value(heap: Seq<DatumView>, v: StackDatum) -> DatumView {
    match v {
        StackDatum::Void => DatumView::Void,
        StackDatum::Int(n) => DatumView::Int(n),
        StackDatum::Ref(r) => match r {
            DatumRef::Void => DatumView::Void,
            DatumRef::Ref(id) => heap[id as int],
        },
    }
}

/// Pops the top operand; an empty stack gives VOID.
pub open spec fn pop_value(stack: Seq<StackDatum>) -> (StackDatum, Seq<StackDatum>) {
    if stack.len() == 0 {
        (StackDatum::Void, stack)
    } else {
        (stack.last(), stack.drop_last())
    }
}

/// The stack with up to `n` operands popped.
pub open spec fn pop_n(stack: Seq<StackDatum>, n: nat) -> Seq<StackDatum> {
    if n >= stack.len() {
        Seq::empty()
    } else {
        stack.take(stack.len() - n)
    }
}

/// The reference to a stored datum just added to a store of `n` datums.
pub open spec fn new_ref(n: nat) -> StackDatum {
    StackDatum::Ref(DatumRef::Ref(n as DatumId))
}

/// `+`, `-` or `*` on two operands: integers wrap at 32 bits inline; any
/// other operands go through Lingo arithmetic, whose result is stored.
pub open spec fn arith_step(op: ArithOp, a: StackDatum, b: StackDatum, heap: Seq<DatumView>) -> Result<
    (StackDatum, Seq<DatumView>),
    ScriptErrorCode,
> {
    match (a, b) {
        (StackDatum::Int(x), StackDatum::Int(y)) => Ok(
            (
                StackDatum::Int(
                    match op {
                        ArithOp::Add => x.wrapping_add(y),
                        ArithOp::Sub => x.wrapping_sub(y),
                        _ => x.wrapping_mul(y),
                    },
                ),
                heap,
            ),
        ),
        _ => match arith_spec(op, stack_value(heap, a), stack_value(heap, b)) {
            Outcome::Value(d) => Ok((new_ref(heap.len()), heap.push(d))),
            Outcome::Unrepresentable => Err(ScriptErrorCode::Unrepresentable),
            _ => Err(ScriptErrorCode::Generic),
        },
    }
}

/// The six comparisons.
#[derive(Clone, Copy)]
pub enum Relation {
    Lt,
    LtEq,
    Gt,
    GtEq,
    Eq,
    NtEq,
}

/// Whether a comparison holds: on integers directly, otherwise by Lingo's
/// comparison of the two values.
pub open spec fn relation_holds(rel: Relation, a: StackDatum, b: StackDatum, heap: Seq<DatumView>) -> bool {
    match (a, b) {
        (StackDatum::Int(x), StackDatum::Int(y)) => match rel {
            Relation::Lt => x < y,
            Relation::LtEq => x <= y,
            Relation::Gt => x > y,
            Relation::GtEq => x >= y,
            Relation::Eq => x == y,
            Relation::NtEq => x != y,
        },
        _ => {
            let l = stack_value(heap, a);
            let r = stack_value(heap, b);
            match rel {
                Relation::Lt => datum_less_than_spec(l, r),
                Relation::LtEq => datum_less_than_spec(l, r) || datum_equals_spec(l, r),
                Relation::Gt => datum_greater_than_spec(l, r),
                Relation::GtEq => datum_greater_than_spec(l, r) || datum_equals_spec(l, r),
                Relation::Eq => datum_equals_spec(l, r),
                Relation::NtEq => !datum_equals_spec(l, r),
            }
        },
    }
}

/// The message of an arithmetic error of this kind.
pub open spec fn arith_error_message(code: ScriptErrorCode) -> Seq<char> {
    if code is Unrepresentable {
        unrepresentable_message()
    } else {
        invalid_operands_message()
    }
}

/// Whether an operand counts as zero for `JmpIfZero`; `None` is an error.
pub open spec fn zero_test(v: StackDatum, heap: Seq<DatumView>) -> Option<bool> {
    match v {
        StackDatum::Int(n) => Some(n == 0),
        StackDatum::Void => Some(true),
        StackDatum::Ref(_) => datum_is_zero_spec(stack_value(heap, v)),
    }
}

/// Strings are values: a stored string assigned to a local is copied.
pub open spec fn copy_on_assign(v: StackDatum, heap: Seq<DatumView>) -> (StackDatum, Seq<DatumView>) {
    match stack_value(heap, v) {
        DatumView::String(s) => if v is Ref {
            (new_ref(heap.len()), heap.push(DatumView::String(s)))
        } else {
            (v, heap)
        },
        _ => (v, heap),
    }
}

/// Argument `i` of the handler, VOID past the end.
pub open spec fn param_ref(args: Seq<DatumRef>, i: int) -> DatumRef {
    if 0 <= i < args.len() {
        args[i]
    } else {
        DatumRef::Void
    }
}

pub open spec fn binary_step(op: ArithOp, s: IrState) -> Result<IrState, (ScriptErrorCode, IrState)> {
    let (b, s1) = pop_value(s.stack);
    let (a, s2) = pop_value(s1);
    match arith_step(op, a, b, s.heap) {
        Ok((v, heap)) => Ok(IrState { stack: s2.push(v), heap, ..s }),
        Err(code) => Err((code, IrState { stack: s2, ..s })),
    }
}

pub open spec fn relation_step(rel: Relation, s: IrState) -> IrState {
    let (b, s1) = pop_value(s.stack);
    let (a, s2) = pop_value(s1);
    IrState {
        stack: s2.push(
            StackDatum::Int(
                if relation_holds(rel, a, b, s.heap) {
                    1
                } else {
                    0
                },
            ),
        ),
        ..s
    }
}

/// The effect of an op that neither jumps nor leaves the IR; the program
/// counter is the caller's to advance.
pub open spec fn ir_simple_step(op: IrOp, args: Seq<DatumRef>, s: IrState) -> Result<
    IrState,
    (ScriptErrorCode, IrState),
> {
    match op {
        IrOp::PushInt(n) => Ok(IrState { stack: s.stack.push(StackDatum::Int(n)), ..s }),
        IrOp::GetLocal(i) => Ok(IrState { stack: s.stack.push(local_at(s.locals, i as int)), ..s }),
        IrOp::SetLocal(i) => {
            let (v, rest) = pop_value(s.stack);
            let (v2, heap) = copy_on_assign(v, s.heap);
            let (locals, assigned) = locals_after_set(s.locals, s.assigned, i as int, v2);
            Ok(IrState { stack: rest, locals, assigned, heap, ..s })
        },
        IrOp::GetParam(i) => Ok(
            IrState { stack: s.stack.push(StackDatum::Ref(param_ref(args, i as int))), ..s },
        ),
        IrOp::Add => binary_step(ArithOp::Add, s),
        IrOp::Sub => binary_step(ArithOp::Sub, s),
        IrOp::Mul => binary_step(ArithOp::Mul, s),
        IrOp::Lt => Ok(relation_step(Relation::Lt, s)),
        IrOp::LtEq => Ok(relation_step(Relation::LtEq, s)),
        IrOp::Gt => Ok(relation_step(Relation::Gt, s)),
        IrOp::GtEq => Ok(relation_step(Relation::GtEq, s)),
        IrOp::Eq => Ok(relation_step(Relation::Eq, s)),
        IrOp::NtEq => Ok(relation_step(Relation::NtEq, s)),
        IrOp::Pop(n) => Ok(IrState { stack: pop_n(s.stack, n as nat), ..s }),
        _ => Ok(s),
    }
}

/// On two integers the IR's arithmetic and comparisons are the integer
/// ones: the two operands on top of the stack are replaced by the wrapped
/// sum, difference or product, or by 1 where the comparison holds and 0
/// where it does not.
pub proof fn lemma_ir_integer_ops(args: Seq<DatumRef>, s: IrState, x: i32, y: i32)
    requires
        s.stack.len() >= 2,
        s.stack[s.stack.len() - 2] == StackDatum::Int(x),
        s.stack.last() == StackDatum::Int(y),
    ensures
        ({
            let rest = s.stack.drop_last().drop_last();
            let pushes = |v: i32| Ok::<IrState, (ScriptErrorCode, IrState)>(IrState { stack: rest.push(StackDatum::Int(v)), ..s });
            &&& ir_simple_step(IrOp::Add, args, s) == pushes(x.wrapping_add(y))
            &&& ir_simple_step(IrOp::Sub, args, s) == pushes(x.wrapping_sub(y))
            &&& ir_simple_step(IrOp::Mul, args, s) == pushes(x.wrapping_mul(y))
            &&& ir_simple_step(IrOp::Lt, args, s) == pushes(if x < y { 1 } else { 0 })
            &&& ir_simple_step(IrOp::LtEq, args, s) == pushes(if x <= y { 1 } else { 0 })
            &&& ir_simple_step(IrOp::Gt, args, s) == pushes(if x > y { 1 } else { 0 })
            &&& ir_simple_step(IrOp::GtEq, args, s) == pushes(if x >= y { 1 } else { 0 })
            &&& ir_simple_step(IrOp::Eq, args, s) == pushes(if x == y { 1 } else { 0 })
            &&& ir_simple_step(IrOp::NtEq, args, s) == pushes(if x != y { 1 } else { 0 })
        }),
{
    let rest = s.stack.drop_last().drop_last();
    assert(s.stack.drop_last().last() == StackDatum::Int(x));
}

/// The benchmark runner's integer ops agree with the IR's: wrapped
/// arithmetic, and 1 or 0 by the integer comparison.
pub proof fn lemma_bench_integer_ops(x: i32, y: i32)
    ensures
        int_binary(IrOp::Add, x, y) == x.wrapping_add(y),
        int_binary(IrOp::Sub, x, y) == x.wrapping_sub(y),
        int_binary(IrOp::Mul, x, y) == x.wrapping_mul(y),
        int_binary(IrOp::Lt, x, y) == (if x < y { 1i32 } else { 0i32 }),
        int_binary(IrOp::LtEq, x, y) == (if x <= y { 1i32 } else { 0i32 }),
        int_binary(IrOp::Gt, x, y) == (if x > y { 1i32 } else { 0i32 }),
        int_binary(IrOp::GtEq, x, y) == (if x >= y { 1i32 } else { 0i32 }),
        int_binary(IrOp::Eq, x, y) == (if x == y { 1i32 } else { 0i32 }),
        int_binary(IrOp::NtEq, x, y) == (if x != y { 1i32 } else { 0i32 }),
{
}

/// The non-strict comparisons are the strict one or equality, and `<>` is
/// the negation of `=`, on any two operands.
pub proof fn lemma_ir_relations_combine(a: StackDatum, b: StackDatum, heap: Seq<DatumView>)
    ensures
        relation_holds(Relation::LtEq, a, b, heap) == (relation_holds(Relation::Lt, a, b, heap)
            || relation_holds(Relation::Eq, a, b, heap)),
        relation_holds(Relation::GtEq, a, b, heap) == (relation_holds(Relation::Gt, a, b, heap)
            || relation_holds(Relation::Eq, a, b, heap)),
        relation_holds(Relation::NtEq, a, b, heap) == !relation_holds(Relation::Eq, a, b, heap),
{
}

/// How many backward jumps a run takes before it hands one to the driver
/// anyway, so that the runaway-loop watchdog still sees loops.
pub open spec fn backjump_period() -> nat {
    4096
}

pub open spec fn pc_measure(len: nat, pc: nat) -> int {
    if pc < len {
        len - pc
    } else {
        0
    }
}

/// A run of the IR from state `s`, having taken `bj` backward jumps so far.
/// A backward jump goes back to the driver when input was polled this
/// frame or on every `backjump_period()`-th one; otherwise the IR keeps going.
pub open spec fn ir_exec(ops: Seq<IrOp>, args: Seq<DatumRef>, polled: bool, s: IrState, bj: nat) -> IrOutcome
    decreases backjump_period() - bj, pc_measure(ops.len(), s.pc),
{
    if s.pc >= ops.len() {
        IrOutcome::Exit(IrExit::Done, s)
    } else {
        match ops[s.pc as int] {
            IrOp::Escape => IrOutcome::Exit(IrExit::Escape, s),
            IrOp::Ret => IrOutcome::Exit(
                IrExit::Done,
                IrState { stack: Seq::empty(), return_value: DatumRef::Void, ..s },
            ),
            IrOp::Jmp(t) => if t <= s.pc {
                if polled || bj + 1 >= backjump_period() {
                    IrOutcome::Exit(IrExit::BackJump, IrState { pc: t as nat, ..s })
                } else {
                    ir_exec(ops, args, polled, IrState { pc: t as nat, ..s }, bj + 1)
                }
            } else {
                ir_exec(ops, args, polled, IrState { pc: t as nat, ..s }, bj)
            },
            IrOp::JmpIfZero(t) => {
                let (c, rest) = pop_value(s.stack);
                let s1 = IrState { stack: rest, ..s };
                match zero_test(c, s.heap) {
                    None => IrOutcome::Failed(ScriptErrorCode::Generic, "datum has no integer value"@, s1),
                    Some(false) => ir_exec(ops, args, polled, IrState { pc: s.pc + 1, ..s1 }, bj),
                    Some(true) => if t <= s.pc {
                        if polled || bj + 1 >= backjump_period() {
                            IrOutcome::Exit(IrExit::BackJump, IrState { pc: t as nat, ..s1 })
                        } else {
                            ir_exec(ops, args, polled, IrState { pc: t as nat, ..s1 }, bj + 1)
                        }
                    } else {
                        ir_exec(ops, args, polled, IrState { pc: t as nat, ..s1 }, bj)
                    },
                }
            },
            op => match ir_simple_step(op, args, s) {
                Ok(s2) => ir_exec(ops, args, polled, IrState { pc: s.pc + 1, ..s2 }, bj),
                Err((code, s2)) => IrOutcome::Failed(code, arith_error_message(code), s2),
            },
        }
    }
}

/// The state the IR sees of a frame and store, at program counter `pc`.
pub open spec fn ir_state(scope: Scope, allocator: DatumAllocator, pc: nat) -> IrState {
    IrState {
        stack: scope.stack@,
        locals: scope.locals@,
        assigned: scope.locals_assigned@,
        heap: view_items(allocator.datums@),
        pc,
        return_value: scope.return_value,
    }
}

/// The state a run starts in: the local file grown to the handler's locals.
pub open spec fn ir_entry_state(scope: Scope, allocator: DatumAllocator, n_locals: usize) -> IrState {
    IrState {
        locals: padded(scope.locals@, n_locals as nat, StackDatum::Void),
        assigned: padded(scope.locals_assigned@, n_locals as nat, false),
        ..ir_state(scope, allocator, scope.bytecode_index as nat)
    }
}

/// An operand names a datum the store holds.
pub open spec fn operand_held(n: nat, v: StackDatum) -> bool {
    v matches StackDatum::Ref(DatumRef::Ref(id)) ==> id < n
}

/// Every reference of the frame names a stored datum.
pub open spec fn frame_held(scope: Scope, n: nat) -> bool {
    &&& forall|i: int| 0 <= i < scope.stack@.len() ==> operand_held(n, #[trigger] scope.stack@[i])
    &&& forall|i: int| 0 <= i < scope.locals@.len() ==> operand_held(n, #[trigger] scope.locals@[i])
    &&& forall|i: int| 0 <= i < scope.args@.len() ==> operand_held(n, StackDatum::Ref(#[trigger] scope.args@[i]))
    &&& operand_held(n, StackDatum::Ref(scope.return_value))
}

/// A frame and store agree with an IR state (other than its program counter).
pub open spec fn matches_state(scope: Scope, allocator: DatumAllocator, s: IrState) -> bool {
    &&& scope.stack@ == s.stack
    &&& scope.locals@ == s.locals
    &&& scope.locals_assigned@ == s.assigned
    &&& view_items(allocator.datums@) == s.heap
    &&& scope.return_value == s.return_value
}



// ---- Laws of the IR ----

/// The integer fast path gives what Lingo arithmetic and comparison give on
/// the same two integers, so compiling a handler does not change its results.
pub proof fn lemma_fast_path_is_lingo(x: i32, y: i32, heap: Seq<DatumView>)
    ensures
        arith_step(ArithOp::Add, StackDatum::Int(x), StackDatum::Int(y), heap) == Ok::<
            (StackDatum, Seq<DatumView>),
            ScriptErrorCode,
        >((StackDatum::Int(x.wrapping_add(y)), heap)),
        arith_spec(ArithOp::Add, DatumView::Int(x), DatumView::Int(y)) == Outcome::Value(DatumView::Int(x.wrapping_add(y))),
        arith_step(ArithOp::Sub, StackDatum::Int(x), StackDatum::Int(y), heap) == Ok::<
            (StackDatum, Seq<DatumView>),
            ScriptErrorCode,
        >((StackDatum::Int(x.wrapping_sub(y)), heap)),
        arith_spec(ArithOp::Sub, DatumView::Int(x), DatumView::Int(y)) == Outcome::Value(DatumView::Int(x.wrapping_sub(y))),
        arith_step(ArithOp::Mul, StackDatum::Int(x), StackDatum::Int(y), heap) == Ok::<
            (StackDatum, Seq<DatumView>),
            ScriptErrorCode,
        >((StackDatum::Int(x.wrapping_mul(y)), heap)),
        arith_spec(ArithOp::Mul, DatumView::Int(x), DatumView::Int(y)) == Outcome::Value(DatumView::Int(x.wrapping_mul(y))),
        relation_holds(Relation::Lt, StackDatum::Int(x), StackDatum::Int(y), heap) == datum_less_than_spec(
            DatumView::Int(x),
            DatumView::Int(y),
        ),
        relation_holds(Relation::Gt, StackDatum::Int(x), StackDatum::Int(y), heap) == datum_greater_than_spec(
            DatumView::Int(x),
            DatumView::Int(y),
        ),
        relation_holds(Relation::Eq, StackDatum::Int(x), StackDatum::Int(y), heap) == datum_equals_spec(
            DatumView::Int(x),
            DatumView::Int(y),
        ),
        relation_holds(Relation::NtEq, StackDatum::Int(x), StackDatum::Int(y), heap) == !datum_equals_spec(
            DatumView::Int(x),
            DatumView::Int(y),
        ),
        relation_holds(Relation::LtEq, StackDatum::Int(x), StackDatum::Int(y), heap) == (datum_less_than_spec(
            DatumView::Int(x),
            DatumView::Int(y),
        ) || datum_equals_spec(DatumView::Int(x), DatumView::Int(y))),
        relation_holds(Relation::GtEq, StackDatum::Int(x), StackDatum::Int(y), heap) == (datum_greater_than_spec(
            DatumView::Int(x),
            DatumView::Int(y),
        ) || datum_equals_spec(DatumView::Int(x), DatumView::Int(y))),
{
}

/// Where a run stops: an escape stops on the `Escape` op itself, the op the
/// interpreter runs next; `Done` comes from running off the end or from
/// `Ret`, which leaves VOID as the return value and an empty stack; a
/// backward jump handed to the driver leaves the index on the jump's target,
/// at or before some jump op whose target it is.
pub proof fn lemma_exit_positions(ops: Seq<IrOp>, args: Seq<DatumRef>, polled: bool, s: IrState, bj: nat)
    ensures
        ir_exec(ops, args, polled, s, bj) matches IrOutcome::Exit(IrExit::Escape, e) ==> e.pc < ops.len()
            && ops[e.pc as int] is Escape,
        ir_exec(ops, args, polled, s, bj) matches IrOutcome::Exit(IrExit::Done, e) ==> e.pc >= ops.len() || (
        ops[e.pc as int] is Ret && e.stack.len() == 0 && e.return_value == DatumRef::Void),
        ir_exec(ops, args, polled, s, bj) matches IrOutcome::Exit(IrExit::BackJump, e) ==> exists|i: int|
            0 <= i < ops.len() && e.pc <= i && (ops[i] == IrOp::Jmp(e.pc as usize) || ops[i]
                == IrOp::JmpIfZero(e.pc as usize)),
    decreases backjump_period() - bj, pc_measure(ops.len(), s.pc),
{
    if s.pc < ops.len() {
        match ops[s.pc as int] {
            IrOp::Escape | IrOp::Ret => {},
            IrOp::Jmp(t) => {
                if t <= s.pc {
                    if !(polled || bj + 1 >= backjump_period()) {
                        lemma_exit_positions(ops, args, polled, IrState { pc: t as nat, ..s }, bj + 1);
                    }
                } else {
                    lemma_exit_positions(ops, args, polled, IrState { pc: t as nat, ..s }, bj);
                }
            },
            IrOp::JmpIfZero(t) => {
                let (c, rest) = pop_value(s.stack);
                let s1 = IrState { stack: rest, ..s };
                match zero_test(c, s.heap) {
                    None => {},
                    Some(false) => {
                        lemma_exit_positions(ops, args, polled, IrState { pc: s.pc + 1, ..s1 }, bj);
                    },
                    Some(true) => {
                        if t <= s.pc {
                            if !(polled || bj + 1 >= backjump_period()) {
                                lemma_exit_positions(ops, args, polled, IrState { pc: t as nat, ..s1 }, bj + 1);
                            }
                        } else {
                            lemma_exit_positions(ops, args, polled, IrState { pc: t as nat, ..s1 }, bj);
                        }
                    },
                }
            },
            op => {
                if let Ok(s2) = ir_simple_step(op, args, s) {
                    lemma_exit_positions(ops, args, polled, IrState { pc: s.pc + 1, ..s2 }, bj);
                }
            },
        }
    }
}

/// When input was polled, a run hands the first backward jump to the driver
/// whatever the count so far, so the driver's cooperative yield runs on every
/// loop iteration.
pub proof fn lemma_polled_stops_at_first_backjump(
    ops: Seq<IrOp>,
    args: Seq<DatumRef>,
    s: IrState,
    bj1: nat,
    bj2: nat,
)
    requires
        bj1 < backjump_period(),
        bj2 < backjump_period(),
    ensures
        ir_exec(ops, args, true, s, bj1) == ir_exec(ops, args, true, s, bj2),
    decreases pc_measure(ops.len(), s.pc),
{
    if s.pc < ops.len() {
        match ops[s.pc as int] {
            IrOp::Jmp(t) => {
                if t > s.pc {
                    lemma_polled_stops_at_first_backjump(ops, args, IrState { pc: t as nat, ..s }, bj1, bj2);
                }
            },
            IrOp::JmpIfZero(t) => {
                let (c, rest) = pop_value(s.stack);
                let s1 = IrState { stack: rest, ..s };
                match zero_test(c, s.heap) {
                    Some(false) => {
                        lemma_polled_stops_at_first_backjump(ops, args, IrState { pc: s.pc + 1, ..s1 }, bj1, bj2);
                    },
                    Some(true) => {
                        if t > s.pc {
                            lemma_polled_stops_at_first_backjump(ops, args, IrState { pc: t as nat, ..s1 }, bj1, bj2);
                        }
                    },
                    None => {},
                }
            },
            IrOp::Escape | IrOp::Ret => {},
            op => {
                if let Ok(s2) = ir_simple_step(op, args, s) {
                    lemma_polled_stops_at_first_backjump(ops, args, IrState { pc: s.pc + 1, ..s2 }, bj1, bj2);
                }
            },
        }
    }
}

/// A string assigned to a local is a copy: a datum new to the store, with
/// the same text.
pub proof fn lemma_strings_are_copied(v: StackDatum, heap: Seq<DatumView>, text: Seq<char>)
    requires
        v is Ref,
        stack_value(heap, v) == DatumView::String(text),
        heap.len() < usize::MAX,
    ensures
        copy_on_assign(v, heap).0 == new_ref(heap.len()),
        copy_on_assign(v, heap).1 == heap.push(DatumView::String(text)),
        stack_value(copy_on_assign(v, heap).1, copy_on_assign(v, heap).0) == DatumView::String(text),
{
    assert(heap.push(DatumView::String(text))[heap.len() as int] == DatumView::String(text));
}

// ---- Running the IR ----

/// The datum an operand stands for.
fn operand_datum(v: &StackDatum, allocator: &DatumAllocator) -> (d: Datum)
    requires
        allocator.wf(),
        operand_held(allocator.datums.len() as nat, *v),
    ensures
        d@ == stack_value(view_items(allocator.datums@), *v),
{
    match v {
        StackDatum::Void => Datum::Void,
        StackDatum::Int(n) => Datum::Int(*n),
        StackDatum::Ref(r) => {
            let d = allocator.get_datum(r);
            proof {
                if let DatumRef::Ref(id) = *r {
                    assert(view_items(allocator.datums@)[id as int] == allocator.datums@[id as int]@);
                }
            }
            d
        },
    }
}

/// `+`, `-` or `*` on two operands; see `arith_step`.
fn ir_arith(op: ArithOp, a: StackDatum, b: StackDatum, allocator: &mut DatumAllocator) -> (r: Result<
    StackDatum,
    ScriptError,
>)
    requires
        old(allocator).wf(),
        op is Add || op is Sub || op is Mul,
        operand_held(old(allocator).datums.len() as nat, a),
        operand_held(old(allocator).datums.len() as nat, b),
    ensures
        final(allocator).wf(),
        match arith_step(op, a, b, view_items(old(allocator).datums@)) {
            Ok((v, heap)) => r == Ok::<StackDatum, ScriptError>(v) && view_items(final(allocator).datums@) == heap,
            Err(code) => r matches Err(e) && e.code == code && e.message@ == arith_error_message(code)
                && final(allocator).datums@ == old(allocator).datums@,
        },
{
    if let (StackDatum::Int(x), StackDatum::Int(y)) = (&a, &b) {
        let v = match op {
            ArithOp::Add => x.wrapping_add(*y),
            ArithOp::Sub => x.wrapping_sub(*y),
            _ => x.wrapping_mul(*y),
        };
        return Ok(StackDatum::Int(v));
    }
    let da = operand_datum(&a, allocator);
    let db = operand_datum(&b, allocator);
    proof {
        lemma_arith_no_panic(op, da@, db@);
    }
    match arith_ref(op, &da, &db) {
        Ok(d) => {
            let ghost h = view_items(allocator.datums@);
            let r = allocator.alloc_datum(d);
            assert(view_items(allocator.datums@) == h.push(d@));
            Ok(StackDatum::Ref(r))
        },
        Err(e) => Err(e),
    }
}

/// A comparison of two operands as the integer 1 or 0; see `relation_holds`.
fn ir_relation(rel: Relation, a: StackDatum, b: StackDatum, allocator: &DatumAllocator) -> (r: StackDatum)
    requires
        allocator.wf(),
        operand_held(allocator.datums.len() as nat, a),
        operand_held(allocator.datums.len() as nat, b),
    ensures
        r == StackDatum::Int(
            if relation_holds(rel, a, b, view_items(allocator.datums@)) {
                1
            } else {
                0
            },
        ),
{
    let holds = if let (StackDatum::Int(x), StackDatum::Int(y)) = (&a, &b) {
        match rel {
            Relation::Lt => *x < *y,
            Relation::LtEq => *x <= *y,
            Relation::Gt => *x > *y,
            Relation::GtEq => *x >= *y,
            Relation::Eq => *x == *y,
            Relation::NtEq => *x != *y,
        }
    } else {
        let l = operand_datum(&a, allocator);
        let r = operand_datum(&b, allocator);
        match rel {
            Relation::Lt => datum_less_than(&l, &r),
            Relation::LtEq => datum_less_than(&l, &r) || datum_equals(&l, &r),
            Relation::Gt => datum_greater_than(&l, &r),
            Relation::GtEq => datum_greater_than(&l, &r) || datum_equals(&l, &r),
            Relation::Eq => datum_equals(&l, &r),
            Relation::NtEq => !datum_equals(&l, &r),
        }
    };
    StackDatum::Int(
        if holds {
            1
        } else {
            0
        },
    )
}

/// Whether an operand counts as zero; see `zero_test`.
fn ir_is_zero(v: &StackDatum, allocator: &DatumAllocator) -> (r: Result<bool, ScriptError>)
    requires
        allocator.wf(),
        operand_held(allocator.datums.len() as nat, *v),
    ensures
        match zero_test(*v, view_items(allocator.datums@)) {
            Some(z) => r == Ok::<bool, ScriptError>(z),
            None => r matches Err(e) && e.code == ScriptErrorCode::Generic && e.message@
                == "datum has no integer value"@,
        },
{
    match v {
        StackDatum::Int(n) => Ok(*n == 0),
        StackDatum::Void => Ok(true),
        StackDatum::Ref(_) => {
            let d = operand_datum(v, allocator);
            datum_is_zero(&d)
        },
    }
}

/// An operand as it is stored into a local; see `copy_on_assign`.
fn cow_on_assign(v: StackDatum, allocator: &mut DatumAllocator) -> (r: StackDatum)
    requires
        old(allocator).wf(),
        operand_held(old(allocator).datums.len() as nat, v),
    ensures
        final(allocator).wf(),
        (r, view_items(final(allocator).datums@)) == copy_on_assign(v, view_items(old(allocator).datums@)),
{
    if let StackDatum::Ref(dr) = v {
        let d = operand_datum(&v, allocator);
        if let Datum::String(s) = d {
            let ghost h = view_items(allocator.datums@);
            let r = allocator.alloc_datum(Datum::String(s));
            assert(view_items(allocator.datums@) == h.push(DatumView::String(s@)));
            return StackDatum::Ref(r);
        }
    }
    v
}

/// Pops the top operand; VOID when the stack is empty.
fn pop_operand(scope: &mut Scope) -> (v: StackDatum)
    ensures
        (v, final(scope).stack@) == pop_value(old(scope).stack@),
        final(scope).args == old(scope).args,
        final(scope).locals == old(scope).locals,
        final(scope).locals_assigned == old(scope).locals_assigned,
        final(scope).bytecode_index == old(scope).bytecode_index,
        final(scope).return_value == old(scope).return_value,
{
    match scope.stack.pop() {
        Some(v) => v,
        None => StackDatum::Void,
    }
}

pub open spec fn is_simple(op: IrOp) -> bool {
    !(op is Jmp || op is JmpIfZero || op is Ret || op is Escape)
}

proof fn lemma_frame_grows(scope: Scope, n: nat, m: nat)
    requires
        frame_held(scope, n),
        n <= m,
    ensures
        frame_held(scope, m),
{
    assert forall|i: int| 0 <= i < scope.stack@.len() implies operand_held(m, #[trigger] scope.stack@[i]) by {
        assert(operand_held(n, scope.stack@[i]));
    }
    assert forall|i: int| 0 <= i < scope.locals@.len() implies operand_held(m, #[trigger] scope.locals@[i]) by {
        assert(operand_held(n, scope.locals@[i]));
    }
    assert forall|i: int| 0 <= i < scope.args@.len() implies operand_held(m, StackDatum::Ref(#[trigger] scope.args@[i])) by {
        assert(operand_held(n, StackDatum::Ref(scope.args@[i])));
    }
}

/// Runs one op that neither jumps nor leaves the IR; see `ir_simple_step`.
#[verifier::rlimit(40)]
fn ir_step(op: IrOp, scope: &mut Scope, allocator: &mut DatumAllocator) -> (r: Result<(), ScriptError>)
    requires
        old(scope).wf(),
        old(allocator).wf(),
        frame_held(*old(scope), old(allocator).datums.len() as nat),
        is_simple(op),
    ensures
        final(scope).wf(),
        final(allocator).wf(),
        frame_held(*final(scope), final(allocator).datums.len() as nat),
        final(scope).args == old(scope).args,
        final(scope).bytecode_index == old(scope).bytecode_index,
        match ir_simple_step(op, old(scope).args@, ir_state(*old(scope), *old(allocator), 0)) {
            Ok(s2) => r is Ok && matches_state(*final(scope), *final(allocator), s2),
            Err((code, s2)) => r matches Err(e) && e.code == code && e.message@ == arith_error_message(code)
                && matches_state(*final(scope), *final(allocator), s2),
        },
{
    let ghost s0 = ir_state(*scope, *allocator, 0);
    let ghost n0 = allocator.datums.len() as nat;
    match op {
        IrOp::PushInt(n) => {
            scope.stack.push(StackDatum::Int(n));
            Ok(())
        },
        IrOp::GetLocal(i) => {
            let v = scope.local(i as usize);
            proof {
                if (i as int) < scope.locals@.len() {
                    assert(operand_held(n0, scope.locals@[i as int]));
                }
            }
            scope.stack.push(v);
            Ok(())
        },
        IrOp::SetLocal(i) => {
            let v = pop_operand(scope);
            proof {
                if s0.stack.len() > 0 {
                    assert(operand_held(n0, s0.stack[s0.stack.len() - 1]));
                }
            }
            let v2 = cow_on_assign(v, allocator);
            proof {
                lemma_frame_grows(*scope, n0, allocator.datums.len() as nat);
            }
            scope.set_local(i as usize, v2);
            proof {
                let n1 = allocator.datums.len() as nat;
                assert forall|k: int| 0 <= k < scope.locals@.len() implies operand_held(n1, #[trigger] scope.locals@[k]) by {
                    if k == i as int {
                    } else if k < old(scope).locals@.len() {
                        assert(scope.locals@[k] == old(scope).locals@[k]);
                        assert(operand_held(n0, old(scope).locals@[k]));
                    }
                }
            }
            Ok(())
        },
        IrOp::GetParam(i) => {
            let dr = if (i as usize) < scope.args.len() {
                scope.args[i as usize]
            } else {
                DatumRef::Void
            };
            proof {
                if (i as int) < scope.args@.len() {
                    assert(operand_held(n0, StackDatum::Ref(scope.args@[i as int])));
                }
            }
            scope.stack.push(StackDatum::Ref(dr));
            Ok(())
        },
        IrOp::Add | IrOp::Sub | IrOp::Mul => {
            let aop = match op {
                IrOp::Add => ArithOp::Add,
                IrOp::Sub => ArithOp::Sub,
                _ => ArithOp::Mul,
            };
            let b = pop_operand(scope);
            let a = pop_operand(scope);
            proof {
                if s0.stack.len() > 0 {
                    assert(operand_held(n0, s0.stack[s0.stack.len() - 1]));
                }
                if s0.stack.len() > 1 {
                    assert(operand_held(n0, s0.stack[s0.stack.len() - 2]));
                }
            }
            let v = ir_arith(aop, a, b, allocator);
            proof {
                lemma_frame_grows(*scope, n0, allocator.datums.len() as nat);
            }
            match v {
                Ok(v) => {
                    scope.stack.push(v);
                    Ok(())
                },
                Err(e) => Err(e),
            }
        },
        IrOp::Lt | IrOp::LtEq | IrOp::Gt | IrOp::GtEq | IrOp::Eq | IrOp::NtEq => {
            let rel = match op {
                IrOp::Lt => Relation::Lt,
                IrOp::LtEq => Relation::LtEq,
                IrOp::Gt => Relation::Gt,
                IrOp::GtEq => Relation::GtEq,
                IrOp::Eq => Relation::Eq,
                _ => Relation::NtEq,
            };
            let b = pop_operand(scope);
            let a = pop_operand(scope);
            proof {
                if s0.stack.len() > 0 {
                    assert(operand_held(n0, s0.stack[s0.stack.len() - 1]));
                }
                if s0.stack.len() > 1 {
                    assert(operand_held(n0, s0.stack[s0.stack.len() - 2]));
                }
            }
            let v = ir_relation(rel, a, b, allocator);
            scope.stack.push(v);
            Ok(())
        },
        IrOp::Pop(n) => {
            let mut k: usize = 0;
            while k < n
                invariant
                    k <= n,
                    scope.wf(),
                    scope.stack@ == pop_n(s0.stack, k as nat),
                    scope.args == old(scope).args,
                    scope.locals == old(scope).locals,
                    scope.locals_assigned == old(scope).locals_assigned,
                    scope.bytecode_index == old(scope).bytecode_index,
                    scope.return_value == old(scope).return_value,
                decreases n - k,
            {
                let _ = pop_operand(scope);
                proof {
                    assert(pop_n(s0.stack, (k + 1) as nat) =~= pop_value(pop_n(s0.stack, k as nat)).1);
                }
                k = k + 1;
            }
            Ok(())
        },
        _ => Ok(()),
    }
}


/// What a run leaves behind, against the outcome `ir_exec` gives: on an exit,
/// the frame and store are the exit state and the bytecode index is its
/// program counter; on an error, they are the state the error left and the
/// bytecode index is where the run started.
pub open spec fn run_matches(
    outcome: IrOutcome,
    r: Result<IrExit, ScriptError>,
    scope: Scope,
    allocator: DatumAllocator,
    start_index: usize,
) -> bool {
    match outcome {
        IrOutcome::Exit(e, s) => r == Ok::<IrExit, ScriptError>(e) && matches_state(scope, allocator, s)
            && scope.bytecode_index == s.pc,
        IrOutcome::Failed(code, msg, s) => r matches Err(err) && err.code == code && err.message@ == msg
            && matches_state(
            scope,
            allocator,
            s,
        ) && scope.bytecode_index == start_index,
    }
}

/// The next step of a run: go on at a program counter with a count of
/// backward jumps, or stop with a result.
enum Control {
    Continue(usize, u32),
    Stop(Result<IrExit, ScriptError>),
}

/// Runs the op at `pc`; see `ir_exec`.
#[verifier::rlimit(40)]
fn ir_advance(
    ops: &Vec<IrOp>,
    pc: usize,
    backjumps: u32,
    input_polled: bool,
    scope: &mut Scope,
    allocator: &mut DatumAllocator,
) -> (c: Control)
    requires
        pc < ops.len(),
        backjumps < backjump_period(),
        old(scope).wf(),
        old(allocator).wf(),
        frame_held(*old(scope), old(allocator).datums.len() as nat),
    ensures
        final(scope).wf(),
        final(allocator).wf(),
        frame_held(*final(scope), final(allocator).datums.len() as nat),
        final(scope).args == old(scope).args,
        match c {
            Control::Continue(pc2, bj2) => {
                &&& bj2 < backjump_period()
                &&& (bj2 > backjumps || (bj2 == backjumps && pc_measure(ops.len() as nat, pc2 as nat)
                    < pc_measure(ops.len() as nat, pc as nat)))
                &&& final(scope).bytecode_index == old(scope).bytecode_index
                &&& ir_exec(ops@, old(scope).args@, input_polled, ir_state(*old(scope), *old(allocator), pc as nat), backjumps as nat)
                    == ir_exec(ops@, old(scope).args@, input_polled, ir_state(*final(scope), *final(allocator), pc2 as nat), bj2 as nat)
            },
            Control::Stop(r) => run_matches(
                ir_exec(ops@, old(scope).args@, input_polled, ir_state(*old(scope), *old(allocator), pc as nat), backjumps as nat),
                r,
                *final(scope),
                *final(allocator),
                old(scope).bytecode_index,
            ),
        },
{
    let ghost s = ir_state(*scope, *allocator, pc as nat);
    let op = ops[pc];
    match op {
        IrOp::Escape => {
            scope.bytecode_index = pc;
            Control::Stop(Ok(IrExit::Escape))
        },
        IrOp::Ret => {
            scope.return_value = DatumRef::Void;
            scope.stack.clear();
            scope.bytecode_index = pc;
            Control::Stop(Ok(IrExit::Done))
        },
        IrOp::Jmp(t) => {
            if t <= pc {
                let b = backjumps + 1;
                assert(1 <= b <= 4096 ==> ((b & 0xFFF == 0) == (b == 4096))) by (bit_vector);
                if input_polled || (b & 0xFFF) == 0 {
                    scope.bytecode_index = t;
                    return Control::Stop(Ok(IrExit::BackJump));
                }
                return Control::Continue(t, b);
            }
            Control::Continue(t, backjumps)
        },
        IrOp::JmpIfZero(t) => {
            let c = pop_operand(scope);
            proof {
                if s.stack.len() > 0 {
                    assert(operand_held(allocator.datums.len() as nat, s.stack[s.stack.len() - 1]));
                }
            }
            let zero = match ir_is_zero(&c, allocator) {
                Ok(z) => z,
                Err(e) => {
                    return Control::Stop(Err(e));
                },
            };
            if zero {
                if t <= pc {
                    let b = backjumps + 1;
                    assert(1 <= b <= 4096 ==> ((b & 0xFFF == 0) == (b == 4096))) by (bit_vector);
                    if input_polled || (b & 0xFFF) == 0 {
                        scope.bytecode_index = t;
                        return Control::Stop(Ok(IrExit::BackJump));
                    }
                    return Control::Continue(t, b);
                }
                Control::Continue(t, backjumps)
            } else {
                Control::Continue(pc + 1, backjumps)
            }
        },
        _ => {
            match ir_step(op, scope, allocator) {
                Ok(()) => Control::Continue(pc + 1, backjumps),
                Err(e) => Control::Stop(Err(e)),
            }
        },
    }
}

/// Runs the IR from the scope's bytecode index until it returns, runs out of
/// ops, reaches an `Escape`, or hands a backward jump to the driver (see
/// `ir_exec`). Operands live on the scope's stack and locals in the scope's
/// local file, grown first to the handler's locals, so the interpreter and
/// the IR share them across an escape. `input_polled` tells whether the
/// movie polled input this frame.
#[verifier::rlimit(40)]
pub fn run_handler_resumable(
    compiled: &CompiledHandler,
    scope: &mut Scope,
    allocator: &mut DatumAllocator,
    input_polled: bool,
) -> (r: Result<IrExit, ScriptError>)
    requires
        old(scope).wf(),
        old(allocator).wf(),
        frame_held(*old(scope), old(allocator).datums.len() as nat),
    ensures
        final(scope).wf(),
        final(allocator).wf(),
        frame_held(*final(scope), final(allocator).datums.len() as nat),
        final(scope).args == old(scope).args,
        run_matches(
            ir_exec(
                compiled.ops@,
                old(scope).args@,
                input_polled,
                ir_entry_state(*old(scope), *old(allocator), compiled.n_locals),
                0,
            ),
            r,
            *final(scope),
            *final(allocator),
            old(scope).bytecode_index,
        ),
{
    scope.ensure_locals(compiled.n_locals);
    let ghost args = scope.args@;
    let ghost start = scope.bytecode_index;
    let ghost target = ir_exec(
        compiled.ops@,
        args,
        input_polled,
        ir_state(*scope, *allocator, scope.bytecode_index as nat),
        0,
    );
    assert(ir_state(*scope, *allocator, scope.bytecode_index as nat) == ir_entry_state(
        *old(scope),
        *old(allocator),
        compiled.n_locals,
    ));
    let mut pc: usize = scope.bytecode_index;
    let mut backjumps: u32 = 0;
    loop
        invariant
            scope.wf(),
            allocator.wf(),
            frame_held(*scope, allocator.datums.len() as nat),
            scope.args@ == args,
            scope.args == old(scope).args,
            scope.bytecode_index == start,
            backjumps < backjump_period(),
            start == old(scope).bytecode_index,
            target == ir_exec(
                compiled.ops@,
                old(scope).args@,
                input_polled,
                ir_entry_state(*old(scope), *old(allocator), compiled.n_locals),
                0,
            ),
            ir_exec(compiled.ops@, args, input_polled, ir_state(*scope, *allocator, pc as nat), backjumps as nat) == target,
        decreases backjump_period() - backjumps, pc_measure(compiled.ops.len() as nat, pc as nat),
    {
        if pc >= compiled.ops.len() {
            assert(target == IrOutcome::Exit(IrExit::Done, ir_state(*scope, *allocator, pc as nat)));
            scope.bytecode_index = pc;
            return Ok(IrExit::Done);
        }
        match ir_advance(&compiled.ops, pc, backjumps, input_polled, scope, allocator) {
            Control::Continue(p, b) => {
                pc = p;
                backjumps = b;
            },
            Control::Stop(r) => {
                return r;
            },
        }
    }
}

/// Runs a handler that the IR runs to the end; an escape or a backward jump
/// handed to the driver is an error here, telling the caller to run the
/// handler resumably.
pub fn run_handler(
    compiled: &CompiledHandler,
    scope: &mut Scope,
    allocator: &mut DatumAllocator,
    input_polled: bool,
) -> (r: Result<(), ScriptError>)
    requires
        old(scope).wf(),
        old(allocator).wf(),
        frame_held(*old(scope), old(allocator).datums.len() as nat),
    ensures
        final(scope).wf(),
        final(allocator).wf(),
        frame_held(*final(scope), final(allocator).datums.len() as nat),
        final(scope).args == old(scope).args,
        ({
            let outcome = ir_exec(
                compiled.ops@,
                old(scope).args@,
                input_polled,
                ir_entry_state(*old(scope), *old(allocator), compiled.n_locals),
                0,
            );
            match outcome {
                IrOutcome::Exit(e, s) => matches_state(*final(scope), *final(allocator), s)
                    && final(scope).bytecode_index == s.pc && (if e is Done {
                    r is Ok
                } else {
                    r matches Err(err) && err.code == ScriptErrorCode::Generic && err.message@
                        == "run_handler: handler escaped; use run_handler_resumable"@
                }),
                IrOutcome::Failed(code, msg, s) => r matches Err(err) && err.code == code && err.message@ == msg
                    && matches_state(
                    *final(scope),
                    *final(allocator),
                    s,
                ) && final(scope).bytecode_index == old(scope).bytecode_index,
            }
        }),
{
    match run_handler_resumable(compiled, scope, allocator, input_polled) {
        Ok(IrExit::Done) => Ok(()),
        Ok(_) => Err(
            ScriptError::new(String::from_str("run_handler: handler escaped; use run_handler_resumable")),
        ),
        Err(e) => Err(e),
    }
}


// ---- The benchmark runner ----

/// An operand read as an integer: VOID and anything not an integer are 0.
pub open spec fn int_of(v: StackDatum) -> i32 {
    match v {
        StackDatum::Int(n) => n,
        _ => 0,
    }
}

/// The integer result of an arithmetic or comparison op on two integers.
pub open spec fn int_binary(op: IrOp, a: i32, b: i32) -> i32 {
    match op {
        IrOp::Add => a.wrapping_add(b),
        IrOp::Sub => a.wrapping_sub(b),
        IrOp::Mul => a.wrapping_mul(b),
        IrOp::Lt => if a < b { 1 } else { 0 },
        IrOp::LtEq => if a <= b { 1 } else { 0 },
        IrOp::Gt => if a > b { 1 } else { 0 },
        IrOp::GtEq => if a >= b { 1 } else { 0 },
        IrOp::Eq => if a == b { 1 } else { 0 },
        _ => if a != b { 1 } else { 0 },
    }
}

/// The benchmark runner on the pure-integer subset, from program counter `pc`
/// with at most `fuel` ops left: `Some` of the value `Ret` returns (the top of
/// the stack, or VOID), or `None` when the fuel runs out or the runner would
/// panic (a program counter or local slot out of range, an operand missing,
/// or a `GetParam` or `Escape`, which it does not run).
pub open spec fn bench_exec(ops: Seq<IrOp>, stack: Seq<StackDatum>, locals: Seq<StackDatum>, pc: nat, fuel: nat) -> Option<
    StackDatum,
>
    decreases fuel,
{
    if fuel == 0 || pc >= ops.len() {
        None
    } else {
        let f = (fuel - 1) as nat;
        match ops[pc as int] {
            IrOp::PushInt(n) => bench_exec(ops, stack.push(StackDatum::Int(n)), locals, pc + 1, f),
            IrOp::GetLocal(i) => if (i as int) < locals.len() {
                bench_exec(ops, stack.push(locals[i as int]), locals, pc + 1, f)
            } else {
                None
            },
            IrOp::SetLocal(i) => if stack.len() == 0 || (i as int) >= locals.len() {
                None
            } else {
                bench_exec(ops, stack.drop_last(), locals.update(i as int, stack.last()), pc + 1, f)
            },
            IrOp::JmpIfZero(t) => if stack.len() == 0 {
                None
            } else if int_of(stack.last()) == 0 {
                bench_exec(ops, stack.drop_last(), locals, t as nat, f)
            } else {
                bench_exec(ops, stack.drop_last(), locals, pc + 1, f)
            },
            IrOp::Jmp(t) => bench_exec(ops, stack, locals, t as nat, f),
            IrOp::Pop(n) => bench_exec(ops, pop_n(stack, n as nat), locals, pc + 1, f),
            IrOp::Ret => Some(
                if stack.len() == 0 {
                    StackDatum::Void
                } else {
                    stack.last()
                },
            ),
            IrOp::GetParam(_) | IrOp::Escape => None,
            op => if stack.len() < 2 {
                None
            } else {
                let b = stack.last();
                let a = stack.drop_last().last();
                bench_exec(
                    ops,
                    stack.drop_last().drop_last().push(
                        StackDatum::Int(int_binary(op, int_of(a), int_of(b))),
                    ),
                    locals,
                    pc + 1,
                    f,
                )
            },
        }
    }
}

/// The local file the benchmark runner starts with: `n_locals` slots (or as
/// many as `init` has, if more), the first ones from `init`, the rest VOID.
pub open spec fn bench_locals(n_locals: usize, init: Seq<StackDatum>) -> Seq<StackDatum> {
    let n = if n_locals >= init.len() {
        n_locals as nat
    } else {
        init.len()
    };
    Seq::new(n, |i: int| if i < init.len() { init[i] } else { StackDatum::Void })
}

/// The runner reaches `Ret` from the start, without panicking.
pub open spec fn bench_halts(ops: Seq<IrOp>, n_locals: usize, init: Seq<StackDatum>) -> bool {
    exists|fuel: nat| #[trigger] bench_exec(ops, Seq::empty(), bench_locals(n_locals, init), 0, fuel) is Some
}

/// What the runner returns from the start, when it halts.
pub open spec fn bench_result(ops: Seq<IrOp>, n_locals: usize, init: Seq<StackDatum>) -> Option<StackDatum> {
    let fuel = choose|fuel: nat| #[trigger] bench_exec(ops, Seq::empty(), bench_locals(n_locals, init), 0, fuel) is Some;
    bench_exec(ops, Seq::empty(), bench_locals(n_locals, init), 0, fuel)
}

/// Runs a compiled pure-integer handler on a private stack and local file,
/// seeded from `locals_init`, and returns what `Ret` returns. Integer
/// arithmetic wraps at 32 bits. Only defined on handlers that reach `Ret`
/// without an op it cannot run.
pub fn run(compiled: &CompiledHandler, locals_init: &[StackDatum]) -> (r: StackDatum)
    requires
        bench_halts(compiled.ops@, compiled.n_locals, locals_init@),
    ensures
        bench_result(compiled.ops@, compiled.n_locals, locals_init@) == Some(r),
{
    let ghost init = bench_locals(compiled.n_locals, locals_init@);
    let n = if compiled.n_locals >= locals_init.len() {
        compiled.n_locals
    } else {
        locals_init.len()
    };
    let mut locals: Vec<StackDatum> = Vec::new();
    let mut i: usize = 0;
    while i < n
        invariant
            i <= n,
            n == init.len(),
            locals.len() == i,
            init == bench_locals(compiled.n_locals, locals_init@),
            forall|k: int| 0 <= k < i ==> locals@[k] == init[k],
        decreases n - i,
    {
        if i < locals_init.len() {
            locals.push(locals_init[i]);
        } else {
            locals.push(StackDatum::Void);
        }
        i = i + 1;
    }
    assert(locals@ == init);
    let ghost fuel0 = choose|fuel: nat| #[trigger] bench_exec(compiled.ops@, Seq::empty(), init, 0, fuel) is Some;
    let ghost target = bench_exec(compiled.ops@, Seq::empty(), init, 0, fuel0);
    let ghost mut fuel: nat = fuel0;
    let ops = &compiled.ops;
    let mut st: Vec<StackDatum> = Vec::new();
    let mut pc: usize = 0;
    loop
        invariant
            ops@ == compiled.ops@,
            target is Some,
            target == bench_result(compiled.ops@, compiled.n_locals, locals_init@),
            bench_exec(ops@, st@, locals@, pc as nat, fuel) == target,
        decreases fuel,
    {
        assert(fuel > 0 && pc < ops.len());
        let op = ops[pc];
        proof {
            fuel = (fuel - 1) as nat;
        }
        match op {
            IrOp::PushInt(n) => {
                st.push(StackDatum::Int(n));
                pc = pc + 1;
            },
            IrOp::GetLocal(s) => {
                st.push(locals[s as usize]);
                pc = pc + 1;
            },
            IrOp::SetLocal(s) => {
                let v = st.pop().unwrap();
                locals.set(s as usize, v);
                pc = pc + 1;
            },
            IrOp::JmpIfZero(t) => {
                let c = st.pop().unwrap();
                let v = match c {
                    StackDatum::Int(n) => n,
                    _ => 0,
                };
                if v == 0 {
                    pc = t;
                } else {
                    pc = pc + 1;
                }
            },
            IrOp::Jmp(t) => {
                pc = t;
            },
            IrOp::Pop(n) => {
                let ghost s0 = st@;
                let mut k: usize = 0;
                while k < n
                    invariant
                        k <= n,
                        st@ == pop_n(s0, k as nat),
                    decreases n - k,
                {
                    let _ = st.pop();
                    proof {
                        assert(pop_n(s0, (k + 1) as nat) =~= pop_value(pop_n(s0, k as nat)).1);
                    }
                    k = k + 1;
                }
                pc = pc + 1;
            },
            IrOp::Ret => {
                return match st.pop() {
                    Some(v) => v,
                    None => StackDatum::Void,
                };
            },
            IrOp::GetParam(_) | IrOp::Escape => {
                proof {
                    assert(false);
                }
                return StackDatum::Void;
            },
            _ => {
                let b = st.pop().unwrap();
                let a = st.pop().unwrap();
                let x = match a {
                    StackDatum::Int(n) => n,
                    _ => 0,
                };
                let y = match b {
                    StackDatum::Int(n) => n,
                    _ => 0,
                };
                let v = match op {
                    IrOp::Add => x.wrapping_add(y),
                    IrOp::Sub => x.wrapping_sub(y),
                    IrOp::Mul => x.wrapping_mul(y),
                    IrOp::Lt => if x < y { 1 } else { 0 },
                    IrOp::LtEq => if x <= y { 1 } else { 0 },
                    IrOp::Gt => if x > y { 1 } else { 0 },
                    IrOp::GtEq => if x >= y { 1 } else { 0 },
                    IrOp::Eq => if x == y { 1 } else { 0 },
                    _ => if x != y { 1 } else { 0 },
                };
                st.push(StackDatum::Int(v));
                pc = pc + 1;
            },
        }
    }
}

} // verus!
