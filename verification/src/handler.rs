//! The bytecode of a compiled Lingo handler, as the IR compiler reads it.
use vstd::prelude::*;
use std::collections::HashMap;

verus! {

/// A Lingo bytecode opcode. The IR compiler distinguishes the ones listed
/// before `GetChunk`; every other opcode runs through the interpreter.
#[derive(Clone, Copy, Debug, PartialEq, Eq, Structural)]
pub enum OpCode {
    PushInt8,
    PushInt16,
    PushInt32,
    PushZero,
    GetLocal,
    SetLocal,
    GetParam,
    Add,
    Sub,
    Mul,
    Lt,
    LtEq,
    Gt,
    GtEq,
    Eq,
    NtEq,
    Jmp,
    JmpIfZ,
    EndRepeat,
    Pop,
    Ret,
    GetChunk,
    Div,
    Mod,
    Inv,
    JoinStr,
    JoinPadStr,
    ContainsStr,
    Not,
    And,
    Or,
    PushCons,
    PushSymb,
    GetGlobal,
    SetGlobal,
    ExtCall,
    ObjCall,
    Put,
}

/// One bytecode: its opcode, its operand, and its byte position in the handler.
#[derive(Clone, Copy, Debug)]
pub struct Bytecode {
    pub opcode: OpCode,
    pub obj: i64,
    pub pos: usize,
}

impl Bytecode {
    pub fn new(opcode: OpCode, obj: i64, pos: usize) -> (b: Bytecode)
        ensures
            b == (Bytecode { opcode, obj, pos }),
    {
        Bytecode { opcode, obj, pos }
    }
}

/// A handler's bytecode and names. `bytecode_index_map` maps a bytecode's
/// byte position to its index in `bytecode_array`.
pub struct HandlerDef {
    pub name_id: u16,
    pub bytecode_array: Vec<Bytecode>,
    pub bytecode_index_map: HashMap<usize, usize>,
    pub argument_name_ids: Vec<u16>,
    pub local_name_ids: Vec<u16>,
    pub global_name_ids: Vec<u16>,
}

} // verus!
