//! The bytecode, trace and value model that the analyses read.
use vstd::prelude::*;

verus! {

/// Built-in methods that a `MethodCall` or `MethodCallNamed` instruction may name.
#[derive(Clone, Copy, Debug, PartialEq, Eq, Structural)]
pub enum MethodKind {
    Clear,
    Contains,
    Count,
    Day,
    Delete,
    EndsWith,
    Find,
    Get,
    Hour,
    IndexOf,
    Insert,
    IsDone,
    IsEmpty,
    Join,
    Keys,
    LastIndexOf,
    Len,
    Lower,
    Minute,
    Month,
    Ms,
    Pop,
    Push,
    Remove,
    Replace,
    Reverse,
    Run,
    Second,
    SetItem,
    Size,
    Slice,
    Sort,
    StartsWith,
    ToFloat,
    ToInt,
    ToStr,
    Trim,
    Update,
    Upper,
    Values,
    Where,
    Year,
}

/// The static type that the JIT tracks for a register.
#[derive(Clone, Copy, Debug, PartialEq, Eq, Structural)]
pub enum TypeTag {
    Unknown,
    Int,
    Float,
    Bool,
    String,
    Date,
    Array,
    BoolArray,
    MapTy,
    SetTy,
    Table,
    Function,
    Row,
    Json,
    Fiber,
    Database,
}

/// The runtime kind of a constant-pool value.
#[derive(Clone, Copy, Debug, PartialEq, Eq, Structural)]
pub enum ValueKind {
    Int,
    Float,
    Bool,
    String,
    Date,
    Array,
    BoolArray,
    MapTy,
    SetTy,
    Table,
    Function,
    Row,
    Json,
    Fiber,
    Database,
    /// Any value of none of the kinds above (such as the empty value).
    Other,
}

/// What the analyses read of a constant-pool value: its kind, and whether its
/// representation carries a heap pointer (a tag at or above the first pointer tag).
#[derive(Clone, Copy, Debug, PartialEq, Eq, Structural)]
pub struct Value {
    pub kind: ValueKind,
    pub ptr: bool,
}

impl Value {
    pub fn is_int(&self) -> (b: bool)
        ensures
            b == (self.kind == ValueKind::Int),
    {
        self.kind == ValueKind::Int
    }

    pub fn is_bool(&self) -> (b: bool)
        ensures
            b == (self.kind == ValueKind::Bool),
    {
        self.kind == ValueKind::Bool
    }

    pub fn is_ptr(&self) -> (b: bool)
        ensures
            b == self.ptr,
    {
        self.ptr
    }
}

/// One bytecode instruction. Registers are `u8`; global, constant and function
/// indices and jump targets are `u32`.
#[derive(Clone, Copy, Debug, PartialEq, Eq, Structural)]
pub enum OpCode {
    Move { dst: u8, src: u8 },
    LoadConst { dst: u8, idx: u32 },
    Add { dst: u8, src1: u8, src2: u8 },
    Sub { dst: u8, src1: u8, src2: u8 },
    Mul { dst: u8, src1: u8, src2: u8 },
    Div { dst: u8, src1: u8, src2: u8 },
    Mod { dst: u8, src1: u8, src2: u8 },
    Pow { dst: u8, src1: u8, src2: u8 },
    Equal { dst: u8, src1: u8, src2: u8 },
    NotEqual { dst: u8, src1: u8, src2: u8 },
    Greater { dst: u8, src1: u8, src2: u8 },
    Less { dst: u8, src1: u8, src2: u8 },
    GreaterEqual { dst: u8, src1: u8, src2: u8 },
    LessEqual { dst: u8, src1: u8, src2: u8 },
    And { dst: u8, src1: u8, src2: u8 },
    Or { dst: u8, src1: u8, src2: u8 },
    IntConcat { dst: u8, src1: u8, src2: u8 },
    Has { dst: u8, src1: u8, src2: u8 },
    SetUnion { dst: u8, src1: u8, src2: u8 },
    SetIntersection { dst: u8, src1: u8, src2: u8 },
    SetDifference { dst: u8, src1: u8, src2: u8 },
    SetSymDifference { dst: u8, src1: u8, src2: u8 },
    Not { dst: u8, src: u8 },
    Neg { dst: u8, src: u8 },
    CastInt { dst: u8, src: u8 },
    CastFloat { dst: u8, src: u8 },
    CastString { dst: u8, src: u8 },
    CastBool { dst: u8, src: u8 },
    Typeof { dst: u8, src: u8 },
    GetVar { dst: u8, idx: u32 },
    SetVar { idx: u32, src: u8 },
    IncVar { idx: u32 },
    DecVar { idx: u32 },
    IncLocal { reg: u8 },
    DecLocal { reg: u8 },
    Jump { target: u32 },
    JumpIfFalse { src: u8, target: u32 },
    JumpIfTrue { src: u8, target: u32 },
    LoopNext { reg: u8, limit_reg: u8, target: u32 },
    LoopPrev { reg: u8, limit_reg: u8, target: u32 },
    IncLocalLoopNext { inc_reg: u8, reg: u8, limit_reg: u8, target: u32 },
    DecLocalLoopPrev { dec_reg: u8, reg: u8, limit_reg: u8, target: u32 },
    IncVarLoopNext { g_idx: u32, reg: u8, limit_reg: u8, target: u32 },
    DecVarLoopPrev { g_idx: u32, reg: u8, limit_reg: u8, target: u32 },
    ArrayLoopNext { idx_reg: u8, size_reg: u8, target: u32 },
    TableIter { tbl_reg: u8, idx_reg: u8, row_reg: u8, limit_reg: u8, target: u32 },
    Return { src: u8 },
    ReturnVoid,
    Halt,
    Wait { src: u8 },
    Yield { src: u8 },
    YieldVoid,
    YieldWithTarget { dst: u8, src: u8 },
    HaltAlert { src: u8 },
    HaltError { src: u8 },
    HaltFatal { src: u8 },
    Print { src: u8 },
    Input { dst: u8 },
    Call { dst: u8, func_idx: u32, base: u8, arg_count: u8 },
    FiberCreate { dst: u8, func_idx: u32, base: u8, arg_count: u8 },
    MethodCall { dst: u8, kind: MethodKind, base: u8, arg_count: u8 },
    MethodCallNamed { dst: u8, kind: MethodKind, base: u8, arg_count: u8, names_idx: u32 },
    MethodCallCustom { dst: u8, method_name_idx: u32, base: u8, arg_count: u8 },
    MakeClosure { dst: u8, capture_start: u8, capture_count: u8 },
    ArrayInit { dst: u8, base: u8, count: u32 },
    BoolArrayInit { dst: u8 },
    SetInit { dst: u8, base: u8, count: u32 },
    MapInit { dst: u8, base: u8, count: u32 },
    SetRange { dst: u8, start: u8, end: u8, step: u8, has_step: u8 },
    TableInit { dst: u8, skeleton_idx: u32, base: u8, row_count: u32, col_count: u32 },
    TableBegin { dst: u8 },
    TableInitRow { tbl_dst: u8, base: u8, col_count: u32 },
    TablePushRow { tbl_reg: u8, row_reg: u8 },
    TableCloneSkeleton { dst: u8, src: u8 },
    RowGet { dst: u8, row_reg: u8, col_idx: u32 },
    GetIndex { dst: u8, container: u8, index: u8 },
    SetIndex { container: u8, index: u8, src: u8 },
    GetMember { dst: u8, container: u8, name_idx: u32 },
    SetMember { container: u8, name_idx: u32, src: u8 },
    SetName { src: u8 },
    StrAppendVar { var_idx: u32, src: u8 },
    StrAppendLocal { local_idx: u8, src: u8 },
    StrAppendElement { container: u8, index: u8, src: u8 },
    StrAppendMember { container: u8, name_idx: u32, src: u8 },
    RandomInt { dst: u8, min: u8, max: u8, step: u8, has_step: u8 },
    RandomFloat { dst: u8, min: u8, max: u8, step: u8, has_step: u8 },
    RandomChoice { dst: u8, src: u8 },
    DateNow { dst: u8 },
    PerfMs { dst: u8 },
    PerfUs { dst: u8 },
    PerfNs { dst: u8 },
    EnvGet { dst: u8, src: u8 },
    EnvArgs { dst: u8 },
    JsonParse { dst: u8, src: u8 },
    JsonFastGetPush { json_src: u8, path_src: u8, val_src: u8 },
    JsonBind { idx: u32, json_src: u8, path_src: u8 },
    JsonBindLocal { dst: u8, json_src: u8, path_src: u8 },
    JsonInject { table_idx: u32, json_src: u8, mapping_src: u8 },
    JsonInjectLocal { table_reg: u8, json_src: u8, mapping_src: u8 },
    HttpCall { dst: u8, method_idx: u32, url_src: u8, body_src: u8 },
    HttpRequest { dst: u8, arg_src: u8 },
    HttpRespond { dst: u8, status_src: u8, body_src: u8, headers_src: u8 },
    HttpServe { func_idx: u32, port_src: u8, host_src: u8, workers_src: u8, routes_src: u8 },
    CryptoHash { dst: u8, pass_src: u8, alg_src: u8 },
    CryptoVerify { dst: u8, pass_src: u8, hash_src: u8, alg_src: u8 },
    CryptoToken { dst: u8, len_src: u8 },
    DatabaseInit { dst: u8, engine_src: u8, path_src: u8, tables_base_reg: u8, table_count: u32 },
    StoreWrite { dst: u8, base: u8 },
    StoreRead { dst: u8, base: u8 },
    StoreAppend { dst: u8, base: u8 },
    StoreExists { dst: u8, base: u8 },
    StoreDelete { dst: u8, base: u8 },
    StoreList { dst: u8, base: u8 },
    StoreIsDir { dst: u8, base: u8 },
    StoreSize { dst: u8, base: u8 },
    StoreMkdir { dst: u8, base: u8 },
    StoreGlob { dst: u8, base: u8 },
    StoreZip { dst: u8, base: u8 },
    StoreUnzip { dst: u8, base: u8 },
    TerminalExit { dst: u8 },
    TerminalRun { dst: u8, cmd_src: u8 },
    TerminalClear { dst: u8 },
    TerminalRaw { dst: u8 },
    TerminalNormal { dst: u8 },
    TerminalCursor { dst: u8, on: bool },
    TerminalMove { dst: u8, x_src: u8, y_src: u8 },
    TerminalWrite { dst: u8, src: u8 },
    InputKey { dst: u8 },
    InputKeyWait { dst: u8 },
    InputReady { dst: u8 },
}

impl OpCode {
    /// The instruction that a jump or loop instruction may transfer control to.
    pub open spec fn target_of(self) -> Option<u32> {
        match self {
            OpCode::Jump { target }
            | OpCode::JumpIfFalse { target, .. }
            | OpCode::JumpIfTrue { target, .. }
            | OpCode::LoopNext { target, .. }
            | OpCode::LoopPrev { target, .. }
            | OpCode::IncLocalLoopNext { target, .. }
            | OpCode::DecLocalLoopPrev { target, .. }
            | OpCode::IncVarLoopNext { target, .. }
            | OpCode::DecVarLoopPrev { target, .. }
            | OpCode::ArrayLoopNext { target, .. }
            | OpCode::TableIter { target, .. } => Some(target),
            _ => None,
        }
    }

    /// The instruction that this jump or loop instruction may transfer control to.
    pub fn jump_target(&self) -> (t: Option<u32>)
        ensures
            t == self.target_of(),
    {
        match *self {
            OpCode::Jump { target }
            | OpCode::JumpIfFalse { target, .. }
            | OpCode::JumpIfTrue { target, .. }
            | OpCode::LoopNext { target, .. }
            | OpCode::LoopPrev { target, .. }
            | OpCode::IncLocalLoopNext { target, .. }
            | OpCode::DecLocalLoopPrev { target, .. }
            | OpCode::IncVarLoopNext { target, .. }
            | OpCode::DecVarLoopPrev { target, .. }
            | OpCode::ArrayLoopNext { target, .. }
            | OpCode::TableIter { target, .. } => Some(target),
            _ => None,
        }
    }

    /// Whether this instruction always jumps to its target.
    pub fn is_unconditional_jump(&self) -> (b: bool)
        ensures
            b == (*self is Jump),
    {
        match *self {
            OpCode::Jump { .. } => true,
            _ => false,
        }
    }

    /// Whether this instruction returns from the chunk.
    pub fn is_return(&self) -> (b: bool)
        ensures
            b == (*self is Return || *self is ReturnVoid),
    {
        match *self {
            OpCode::Return { .. } | OpCode::ReturnVoid => true,
            _ => false,
        }
    }

    /// Whether this instruction stops the program.
    pub fn is_halt(&self) -> (b: bool)
        ensures
            b == (*self is Halt),
    {
        match *self {
            OpCode::Halt => true,
            _ => false,
        }
    }
}

/// The instructions that control may reach after instruction `ip`: the target
/// of a jump, then the next instruction unless the jump is unconditional; no
/// successor after a return or a halt.
pub open spec fn next_ips(op: OpCode, ip: int) -> Seq<int> {
    match op.target_of() {
        Some(t) => if op is Jump {
            seq![t as int]
        } else {
            seq![t as int, ip + 1]
        },
        None => if op is Return || op is ReturnVoid || op is Halt {
            seq![]
        } else {
            seq![ip + 1]
        },
    }
}

/// One instruction of a recorded trace, as far as the trace analyses read it.
/// Every trace instruction that those analyses pass over is `Other`.
#[derive(Clone, Copy, Debug, PartialEq, Eq, Structural)]
pub enum TraceOp {
    LoadConst { dst: u8, val: Value },
    Move { dst: u8, src: u8 },
    AddInt { dst: u8, src1: u8, src2: u8 },
    SubInt { dst: u8, src1: u8, src2: u8 },
    MulInt { dst: u8, src1: u8, src2: u8 },
    ModInt { dst: u8, src1: u8, src2: u8 },
    DivInt { dst: u8, src1: u8, src2: u8 },
    PowInt { dst: u8, src1: u8, src2: u8 },
    IntConcat { dst: u8, src1: u8, src2: u8 },
    NegInt { dst: u8, src: u8 },
    IncLocal { reg: u8 },
    SetVar { idx: u32, src: u8 },
    GetVar { dst: u8, idx: u32 },
    IncVar { g_idx: u32 },
    ArrayGet { dst: u8 },
    ArrayGetIndex { dst: u8 },
    GetMember { dst: u8 },
    JsonBindLocal { dst: u8 },
    JsonBindLocalConst { dst: u8 },
    JsonParse { dst: u8 },
    FiberNext { dst: u8 },
    Call { dst: u8 },
    TableCloneSkeleton { dst: u8 },
    RowGet { dst: u8 },
    Other,
}

} // verus!
