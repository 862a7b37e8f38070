//! Static register types at every instruction of a chunk.
use vstd::prelude::*;
use std::collections::{HashMap, HashSet, VecDeque};
use crate::model::{MethodKind, OpCode, TypeTag, Value, ValueKind, next_ips};

verus! {

broadcast use vstd::std_specs::hash::group_hash_axioms;

/// The type that an instruction's use of parameter register `reg` suggests.
pub open spec fn param_hint(op: OpCode, reg: u8) -> Option<TypeTag> {
    match op {
        OpCode::Less { src1, src2, .. }
        | OpCode::Greater { src1, src2, .. }
        | OpCode::LessEqual { src1, src2, .. }
        | OpCode::GreaterEqual { src1, src2, .. }
        | OpCode::Add { src1, src2, .. }
        | OpCode::Sub { src1, src2, .. }
        | OpCode::Mul { src1, src2, .. }
        | OpCode::Div { src1, src2, .. }
        | OpCode::Mod { src1, src2, .. } => if src1 == reg || src2 == reg {
            Some(TypeTag::Int)
        } else {
            None
        },
        OpCode::IncLocal { reg: r } | OpCode::DecLocal { reg: r } => if r == reg {
            Some(TypeTag::Int)
        } else {
            None
        },
        OpCode::JumpIfTrue { src, .. } | OpCode::JumpIfFalse { src, .. } | OpCode::Not { src, .. } => if src
            == reg {
            Some(TypeTag::Bool)
        } else {
            None
        },
        _ => None,
    }
}

/// The type that the first instruction of `ops` with a hint for `reg` suggests;
/// `Unknown` when none has one.
pub open spec fn first_hint(ops: Seq<OpCode>, reg: u8) -> TypeTag
    decreases ops.len(),
{
    if ops.len() == 0 {
        TypeTag::Unknown
    } else {
        match param_hint(ops[0], reg) {
            Some(t) => t,
            None => first_hint(ops.skip(1), reg),
        }
    }
}

/// The guessed parameter types: the first `arity % 256` registers get the type
/// their first hinting use suggests, the others `Unknown`.
pub open spec fn param_types(ops: Seq<OpCode>, arity: usize) -> Seq<TypeTag> {
    Seq::new(256, |r: int| if r < arity % 256 { first_hint(ops, r as u8) } else { TypeTag::Unknown })
}

fn param_hint_exec(op: &OpCode, reg: u8) -> (h: Option<TypeTag>)
    ensures
        h == param_hint(*op, reg),
{
    match *op {
        OpCode::Less { src1, src2, .. }
        | OpCode::Greater { src1, src2, .. }
        | OpCode::LessEqual { src1, src2, .. }
        | OpCode::GreaterEqual { src1, src2, .. }
        | OpCode::Add { src1, src2, .. }
        | OpCode::Sub { src1, src2, .. }
        | OpCode::Mul { src1, src2, .. }
        | OpCode::Div { src1, src2, .. }
        | OpCode::Mod { src1, src2, .. } => if src1 == reg || src2 == reg {
            Some(TypeTag::Int)
        } else {
            None
        },
        OpCode::IncLocal { reg: r } | OpCode::DecLocal { reg: r } => if r == reg {
            Some(TypeTag::Int)
        } else {
            None
        },
        OpCode::JumpIfTrue { src, .. } | OpCode::JumpIfFalse { src, .. } | OpCode::Not { src, .. } => if src
            == reg {
            Some(TypeTag::Bool)
        } else {
            None
        },
        _ => None,
    }
}

/// Guesses the types of the first `arity` registers (the parameters) from the
/// first instruction that uses each in a way that implies a type: comparisons,
/// arithmetic and increments imply `Int`; branches and `Not` imply `Bool`.
pub fn infer_param_types(bytecode: &[OpCode], arity: usize, _constants: &[Value]) -> (types: [TypeTag; 256])
    ensures
        types@ == param_types(bytecode@, arity),
{
    let mut types = [TypeTag::Unknown; 256];
    let params: u8 = (arity % 256) as u8;
    let mut reg: u8 = 0;
    while reg < params
        invariant
            params as int == arity % 256,
            reg <= params,
            forall|r: int| 0 <= r < 256 ==> types@[r] == (if r < reg { first_hint(bytecode@, r as u8) } else {
                TypeTag::Unknown
            }),
        decreases params - reg,
    {
        let mut k: usize = 0;
        let mut found: Option<TypeTag> = None;
        assert(bytecode@.skip(0) =~= bytecode@);
        while k < bytecode.len() && found.is_none()
            invariant
                k <= bytecode@.len(),
                match found {
                    Some(t) => first_hint(bytecode@, reg) == t,
                    None => first_hint(bytecode@, reg) == first_hint(bytecode@.skip(k as int), reg),
                },
            decreases bytecode@.len() - k,
        {
            assert(bytecode@.skip(k as int).skip(1) =~= bytecode@.skip(k as int + 1));
            assert(bytecode@.skip(k as int)[0] == bytecode@[k as int]);
            found = param_hint_exec(&bytecode[k], reg);
            k = k + 1;
        }
        match found {
            Some(t) => {
                types[reg as usize] = t;
            },
            None => {
                assert(bytecode@.skip(k as int).len() == 0);
            },
        }
        reg = reg + 1;
    }
    assert(types@ =~= param_types(bytecode@, arity));
    types
}

} // verus!

verus! {

/// The static type of a constant of the given kind.
pub open spec fn kind_type(k: ValueKind) -> TypeTag {
    match k {
        ValueKind::Int => TypeTag::Int,
        ValueKind::Float => TypeTag::Float,
        ValueKind::Bool => TypeTag::Bool,
        ValueKind::String => TypeTag::String,
        ValueKind::Date => TypeTag::Date,
        ValueKind::Array => TypeTag::Array,
        ValueKind::BoolArray => TypeTag::BoolArray,
        ValueKind::MapTy => TypeTag::MapTy,
        ValueKind::SetTy => TypeTag::SetTy,
        ValueKind::Table => TypeTag::Table,
        ValueKind::Function => TypeTag::Function,
        ValueKind::Row => TypeTag::Row,
        ValueKind::Json => TypeTag::Json,
        ValueKind::Fiber => TypeTag::Fiber,
        ValueKind::Database => TypeTag::Database,
        ValueKind::Other => TypeTag::Unknown,
    }
}

fn kind_type_exec(k: ValueKind) -> (t: TypeTag)
    ensures
        t == kind_type(k),
{
    match k {
        ValueKind::Int => TypeTag::Int,
        ValueKind::Float => TypeTag::Float,
        ValueKind::Bool => TypeTag::Bool,
        ValueKind::String => TypeTag::String,
        ValueKind::Date => TypeTag::Date,
        ValueKind::Array => TypeTag::Array,
        ValueKind::BoolArray => TypeTag::BoolArray,
        ValueKind::MapTy => TypeTag::MapTy,
        ValueKind::SetTy => TypeTag::SetTy,
        ValueKind::Table => TypeTag::Table,
        ValueKind::Function => TypeTag::Function,
        ValueKind::Row => TypeTag::Row,
        ValueKind::Json => TypeTag::Json,
        ValueKind::Fiber => TypeTag::Fiber,
        ValueKind::Database => TypeTag::Database,
        ValueKind::Other => TypeTag::Unknown,
    }
}

/// The result type of an addition of operands typed `t1` and `t2`.
pub open spec fn add_type(t1: TypeTag, t2: TypeTag) -> TypeTag {
    if t1 == TypeTag::Date && t2 == TypeTag::Int {
        TypeTag::Date
    } else if t1 == TypeTag::Int && t2 == TypeTag::Date {
        TypeTag::Date
    } else if t1 == TypeTag::Int && t2 == TypeTag::Int {
        TypeTag::Int
    } else if t1 == TypeTag::Float || t2 == TypeTag::Float {
        TypeTag::Float
    } else if t1 == TypeTag::String || t2 == TypeTag::String {
        TypeTag::String
    } else {
        TypeTag::Unknown
    }
}

/// The result type of a subtraction of operands typed `t1` and `t2`.
pub open spec fn sub_type(t1: TypeTag, t2: TypeTag) -> TypeTag {
    if t1 == TypeTag::Date && t2 == TypeTag::Int {
        TypeTag::Date
    } else if t1 == TypeTag::Date && t2 == TypeTag::Date {
        TypeTag::Int
    } else if t1 == TypeTag::Int && t2 == TypeTag::Int {
        TypeTag::Int
    } else if t1 == TypeTag::Float || t2 == TypeTag::Float {
        TypeTag::Float
    } else if t1 == TypeTag::String || t2 == TypeTag::String {
        TypeTag::String
    } else {
        TypeTag::Unknown
    }
}

/// The result type of a multiplication, division, remainder or power.
pub open spec fn mul_type(t1: TypeTag, t2: TypeTag) -> TypeTag {
    if t1 == TypeTag::Int && t2 == TypeTag::Int {
        TypeTag::Int
    } else if t1 == TypeTag::Float || t2 == TypeTag::Float {
        TypeTag::Float
    } else {
        TypeTag::Unknown
    }
}

/// The result type of a built-in method call on a receiver typed `base`.
pub open spec fn method_type(kind: MethodKind, base: TypeTag) -> TypeTag {
    match kind {
        MethodKind::Len | MethodKind::Size | MethodKind::Count | MethodKind::Find => TypeTag::Int,
        MethodKind::Push | MethodKind::SetItem | MethodKind::Update => TypeTag::Bool,
        MethodKind::Get => if base == TypeTag::Json {
            TypeTag::Json
        } else if base == TypeTag::BoolArray {
            TypeTag::Bool
        } else {
            TypeTag::Unknown
        },
        MethodKind::Values => if base == TypeTag::SetTy {
            TypeTag::Array
        } else {
            TypeTag::Unknown
        },
        MethodKind::Where | MethodKind::Join => TypeTag::Table,
        _ => TypeTag::Unknown,
    }
}

/// The register types and global types after one instruction.
pub open spec fn type_transfer(
    op: OpCode,
    ts: Seq<TypeTag>,
    globals: Map<u32, TypeTag>,
    constants: Seq<Value>,
    self_func_idx: u32,
    hints: Set<u8>,
) -> (Seq<TypeTag>, Map<u32, TypeTag>) {
    match op {
        OpCode::LoadConst { dst, idx } => if (idx as int) < constants.len() {
            (ts.update(dst as int, kind_type(constants[idx as int].kind)), globals)
        } else {
            (ts, globals)
        },
        OpCode::CastInt { dst, .. } => (ts.update(dst as int, TypeTag::Int), globals),
        OpCode::CastFloat { dst, .. } => (ts.update(dst as int, TypeTag::Float), globals),
        OpCode::CastString { dst, .. } => (ts.update(dst as int, TypeTag::String), globals),
        OpCode::CastBool { dst, .. } => (ts.update(dst as int, TypeTag::Bool), globals),
        OpCode::IncLocal { reg } | OpCode::DecLocal { reg } => (ts.update(reg as int, TypeTag::Int), globals),
        OpCode::LoopNext { reg, .. }
        | OpCode::LoopPrev { reg, .. }
        | OpCode::IncVarLoopNext { reg, .. }
        | OpCode::DecVarLoopPrev { reg, .. }
        | OpCode::ArrayLoopNext { idx_reg: reg, .. }
        | OpCode::TableIter { idx_reg: reg, .. } => (ts.update(reg as int, TypeTag::Int), globals),
        OpCode::IncLocalLoopNext { inc_reg, reg, .. } => (
            ts.update(inc_reg as int, TypeTag::Int).update(reg as int, TypeTag::Int),
            globals,
        ),
        OpCode::DecLocalLoopPrev { dec_reg, reg, .. } => (
            ts.update(dec_reg as int, TypeTag::Int).update(reg as int, TypeTag::Int),
            globals,
        ),
        OpCode::Add { dst, src1, src2 } => (
            ts.update(dst as int, add_type(ts[src1 as int], ts[src2 as int])),
            globals,
        ),
        OpCode::Sub { dst, src1, src2 } => (
            ts.update(dst as int, sub_type(ts[src1 as int], ts[src2 as int])),
            globals,
        ),
        OpCode::Mul { dst, src1, src2 }
        | OpCode::Div { dst, src1, src2 }
        | OpCode::Mod { dst, src1, src2 }
        | OpCode::Pow { dst, src1, src2 } => (
            ts.update(dst as int, mul_type(ts[src1 as int], ts[src2 as int])),
            globals,
        ),
        OpCode::Equal { dst, .. }
        | OpCode::NotEqual { dst, .. }
        | OpCode::Greater { dst, .. }
        | OpCode::Less { dst, .. }
        | OpCode::GreaterEqual { dst, .. }
        | OpCode::LessEqual { dst, .. } => (ts.update(dst as int, TypeTag::Bool), globals),
        OpCode::IntConcat { dst, .. } => (ts.update(dst as int, TypeTag::Int), globals),
        OpCode::Move { dst, src } | OpCode::Neg { dst, src } => (ts.update(dst as int, ts[src as int]), globals),
        OpCode::Not { dst, .. } => (ts.update(dst as int, TypeTag::Bool), globals),
        OpCode::DateNow { dst } => (ts.update(dst as int, TypeTag::Date), globals),
        OpCode::PerfMs { dst } | OpCode::PerfUs { dst } | OpCode::PerfNs { dst } => (
            ts.update(dst as int, TypeTag::Int),
            globals,
        ),
        OpCode::ArrayInit { dst, .. } => (
            ts.update(
                dst as int,
                if hints.contains(dst) {
                    TypeTag::BoolArray
                } else {
                    TypeTag::Array
                },
            ),
            globals,
        ),
        OpCode::BoolArrayInit { dst } => (ts.update(dst as int, TypeTag::BoolArray), globals),
        OpCode::SetInit { dst, .. }
        | OpCode::SetRange { dst, .. }
        | OpCode::SetUnion { dst, .. }
        | OpCode::SetIntersection { dst, .. }
        | OpCode::SetDifference { dst, .. }
        | OpCode::SetSymDifference { dst, .. } => (ts.update(dst as int, TypeTag::SetTy), globals),
        OpCode::TableInit { dst, .. } | OpCode::TableCloneSkeleton { dst, .. } => (
            ts.update(dst as int, TypeTag::Table),
            globals,
        ),
        OpCode::MapInit { dst, .. } => (ts.update(dst as int, TypeTag::MapTy), globals),
        OpCode::JsonParse { dst, .. } => (ts.update(dst as int, TypeTag::Json), globals),
        OpCode::MethodCall { dst, kind, base, .. } | OpCode::MethodCallNamed { dst, kind, base, .. } => (
            ts.update(dst as int, method_type(kind, ts[base as int])),
            globals,
        ),
        OpCode::Call { dst, func_idx, .. } => (
            ts.update(
                dst as int,
                if func_idx == self_func_idx && ts[0] == TypeTag::Int {
                    TypeTag::Int
                } else {
                    TypeTag::Unknown
                },
            ),
            globals,
        ),
        OpCode::Typeof { dst, .. } => (ts.update(dst as int, TypeTag::String), globals),
        OpCode::GetIndex { dst, container, .. } => (
            ts.update(
                dst as int,
                if ts[container as int] == TypeTag::BoolArray {
                    TypeTag::Bool
                } else if ts[container as int] == TypeTag::Table {
                    TypeTag::Row
                } else {
                    TypeTag::Unknown
                },
            ),
            globals,
        ),
        OpCode::GetMember { dst, .. }
        | OpCode::MethodCallCustom { dst, .. }
        | OpCode::RowGet { dst, .. }
        | OpCode::YieldWithTarget { dst, .. }
        | OpCode::HttpCall { dst, .. }
        | OpCode::HttpRequest { dst, .. }
        | OpCode::JsonBindLocal { dst, .. }
        | OpCode::JsonInjectLocal { table_reg: dst, .. }
        | OpCode::StoreRead { dst, .. } => (ts.update(dst as int, TypeTag::Unknown), globals),
        OpCode::FiberCreate { dst, .. } => (ts.update(dst as int, TypeTag::Fiber), globals),
        OpCode::EnvGet { dst, .. } | OpCode::CryptoHash { dst, .. } | OpCode::CryptoToken { dst, .. } => (
            ts.update(dst as int, TypeTag::String),
            globals,
        ),
        OpCode::EnvArgs { dst } | OpCode::StoreList { dst, .. } | OpCode::StoreGlob { dst, .. } => (
            ts.update(dst as int, TypeTag::Array),
            globals,
        ),
        OpCode::CryptoVerify { dst, .. }
        | OpCode::StoreExists { dst, .. }
        | OpCode::StoreIsDir { dst, .. }
        | OpCode::HttpRespond { dst, .. } => (ts.update(dst as int, TypeTag::Bool), globals),
        OpCode::StoreSize { dst, .. } => (ts.update(dst as int, TypeTag::Int), globals),
        OpCode::GetVar { dst, idx } => (
            ts.update(
                dst as int,
                if globals.contains_key(idx) {
                    globals[idx]
                } else {
                    TypeTag::Unknown
                },
            ),
            globals,
        ),
        OpCode::SetVar { idx, src } => (ts, globals.insert(idx, ts[src as int])),
        OpCode::IncVar { idx } | OpCode::DecVar { idx } => (ts, globals.insert(idx, TypeTag::Int)),
        _ => (ts, globals),
    }
}

/// A type whose values live on the heap (boolean arrays are kept unboxed).
pub open spec fn is_heap_type(t: TypeTag) -> bool {
    !(t == TypeTag::Int || t == TypeTag::Float || t == TypeTag::Bool || t == TypeTag::Unknown || t
        == TypeTag::BoolArray)
}

/// Some register holds a heap type.
pub open spec fn has_heap_type(ts: Seq<TypeTag>) -> bool {
    exists|r: int| 0 <= r < ts.len() && #[trigger] is_heap_type(ts[r])
}

/// Where two paths meet: a register keeps its type when both agree (or when
/// it is already `Unknown`) and becomes `Unknown` otherwise.
pub open spec fn join_types(a: Seq<TypeTag>, b: Seq<TypeTag>) -> Seq<TypeTag> {
    Seq::new(a.len(), |r: int| if a[r] != b[r] && a[r] != TypeTag::Unknown { TypeTag::Unknown } else { a[r] })
}

/// Updates register types from one instruction.
#[verifier::spinoff_prover]
#[verifier::rlimit(60)]
fn transfer_types(
    op: &OpCode,
    ts: &mut [TypeTag; 256],
    globals: &mut HashMap<u32, TypeTag>,
    constants: &[Value],
    self_func_idx: u32,
    hints: &HashSet<u8>,
)
    ensures
        (final(ts)@, final(globals)@) == type_transfer(
            *op,
            old(ts)@,
            old(globals)@,
            constants@,
            self_func_idx,
            hints@,
        ),
{
    match *op {
        OpCode::LoadConst { dst, idx } => {
            if (idx as usize) < constants.len() {
                ts[dst as usize] = kind_type_exec(constants[idx as usize].kind);
            }
        },
        OpCode::CastInt { dst, .. } => {
            ts[dst as usize] = TypeTag::Int;
        },
        OpCode::CastFloat { dst, .. } => {
            ts[dst as usize] = TypeTag::Float;
        },
        OpCode::CastString { dst, .. } => {
            ts[dst as usize] = TypeTag::String;
        },
        OpCode::CastBool { dst, .. } => {
            ts[dst as usize] = TypeTag::Bool;
        },
        OpCode::IncLocal { reg } | OpCode::DecLocal { reg } => {
            ts[reg as usize] = TypeTag::Int;
        },
        OpCode::LoopNext { reg, .. }
        | OpCode::LoopPrev { reg, .. }
        | OpCode::IncVarLoopNext { reg, .. }
        | OpCode::DecVarLoopPrev { reg, .. }
        | OpCode::ArrayLoopNext { idx_reg: reg, .. }
        | OpCode::TableIter { idx_reg: reg, .. } => {
            ts[reg as usize] = TypeTag::Int;
        },
        OpCode::IncLocalLoopNext { inc_reg, reg, .. } => {
            ts[inc_reg as usize] = TypeTag::Int;
            ts[reg as usize] = TypeTag::Int;
        },
        OpCode::DecLocalLoopPrev { dec_reg, reg, .. } => {
            ts[dec_reg as usize] = TypeTag::Int;
            ts[reg as usize] = TypeTag::Int;
        },
        OpCode::Add { dst, src1, src2 } => {
            let t1 = ts[src1 as usize];
            let t2 = ts[src2 as usize];
            let ty = if t1 == TypeTag::Date && t2 == TypeTag::Int {
                TypeTag::Date
            } else if t1 == TypeTag::Int && t2 == TypeTag::Date {
                TypeTag::Date
            } else if t1 == TypeTag::Int && t2 == TypeTag::Int {
                TypeTag::Int
            } else if t1 == TypeTag::Float || t2 == TypeTag::Float {
                TypeTag::Float
            } else if t1 == TypeTag::String || t2 == TypeTag::String {
                TypeTag::String
            } else {
                TypeTag::Unknown
            };
            ts[dst as usize] = ty;
        },
        OpCode::Sub { dst, src1, src2 } => {
            let t1 = ts[src1 as usize];
            let t2 = ts[src2 as usize];
            let ty = if t1 == TypeTag::Date && t2 == TypeTag::Int {
                TypeTag::Date
            } else if t1 == TypeTag::Date && t2 == TypeTag::Date {
                TypeTag::Int
            } else if t1 == TypeTag::Int && t2 == TypeTag::Int {
                TypeTag::Int
            } else if t1 == TypeTag::Float || t2 == TypeTag::Float {
                TypeTag::Float
            } else if t1 == TypeTag::String || t2 == TypeTag::String {
                TypeTag::String
            } else {
                TypeTag::Unknown
            };
            ts[dst as usize] = ty;
        },
        OpCode::Mul { dst, src1, src2 }
        | OpCode::Div { dst, src1, src2 }
        | OpCode::Mod { dst, src1, src2 }
        | OpCode::Pow { dst, src1, src2 } => {
            let t1 = ts[src1 as usize];
            let t2 = ts[src2 as usize];
            let ty = if t1 == TypeTag::Int && t2 == TypeTag::Int {
                TypeTag::Int
            } else if t1 == TypeTag::Float || t2 == TypeTag::Float {
                TypeTag::Float
            } else {
                TypeTag::Unknown
            };
            ts[dst as usize] = ty;
        },
        OpCode::Equal { dst, .. }
        | OpCode::NotEqual { dst, .. }
        | OpCode::Greater { dst, .. }
        | OpCode::Less { dst, .. }
        | OpCode::GreaterEqual { dst, .. }
        | OpCode::LessEqual { dst, .. } => {
            ts[dst as usize] = TypeTag::Bool;
        },
        OpCode::IntConcat { dst, .. } => {
            ts[dst as usize] = TypeTag::Int;
        },
        OpCode::Move { dst, src } | OpCode::Neg { dst, src } => {
            ts[dst as usize] = ts[src as usize];
        },
        OpCode::Not { dst, .. } => {
            ts[dst as usize] = TypeTag::Bool;
        },
        OpCode::DateNow { dst } => {
            ts[dst as usize] = TypeTag::Date;
        },
        OpCode::PerfMs { dst } | OpCode::PerfUs { dst } | OpCode::PerfNs { dst } => {
            ts[dst as usize] = TypeTag::Int;
        },
        OpCode::ArrayInit { dst, .. } => {
            if hints.contains(&dst) {
                ts[dst as usize] = TypeTag::BoolArray;
            } else {
                ts[dst as usize] = TypeTag::Array;
            }
        },
        OpCode::BoolArrayInit { dst } => {
            ts[dst as usize] = TypeTag::BoolArray;
        },
        OpCode::SetInit { dst, .. }
        | OpCode::SetRange { dst, .. }
        | OpCode::SetUnion { dst, .. }
        | OpCode::SetIntersection { dst, .. }
        | OpCode::SetDifference { dst, .. }
        | OpCode::SetSymDifference { dst, .. } => {
            ts[dst as usize] = TypeTag::SetTy;
        },
        OpCode::TableInit { dst, .. } | OpCode::TableCloneSkeleton { dst, .. } => {
            ts[dst as usize] = TypeTag::Table;
        },
        OpCode::MapInit { dst, .. } => {
            ts[dst as usize] = TypeTag::MapTy;
        },
        OpCode::JsonParse { dst, .. } => {
            ts[dst as usize] = TypeTag::Json;
        },
        OpCode::MethodCall { dst, kind, base, .. } | OpCode::MethodCallNamed { dst, kind, base, .. } => {
            let b = ts[base as usize];
            let ty = match kind {
                MethodKind::Len | MethodKind::Size | MethodKind::Count | MethodKind::Find => TypeTag::Int,
                MethodKind::Push | MethodKind::SetItem | MethodKind::Update => TypeTag::Bool,
                MethodKind::Get => if b == TypeTag::Json {
                    TypeTag::Json
                } else if b == TypeTag::BoolArray {
                    TypeTag::Bool
                } else {
                    TypeTag::Unknown
                },
                MethodKind::Values => if b == TypeTag::SetTy {
                    TypeTag::Array
                } else {
                    TypeTag::Unknown
                },
                MethodKind::Where | MethodKind::Join => TypeTag::Table,
                _ => TypeTag::Unknown,
            };
            ts[dst as usize] = ty;
        },
        OpCode::Call { dst, func_idx, .. } => {
            if func_idx == self_func_idx && ts[0] == TypeTag::Int {
                ts[dst as usize] = TypeTag::Int;
            } else {
                ts[dst as usize] = TypeTag::Unknown;
            }
        },
        OpCode::Typeof { dst, .. } => {
            ts[dst as usize] = TypeTag::String;
        },
        OpCode::GetIndex { dst, container, .. } => {
            let c = ts[container as usize];
            if c == TypeTag::BoolArray {
                ts[dst as usize] = TypeTag::Bool;
            } else if c == TypeTag::Table {
                ts[dst as usize] = TypeTag::Row;
            } else {
                ts[dst as usize] = TypeTag::Unknown;
            }
        },
        OpCode::GetMember { dst, .. }
        | OpCode::MethodCallCustom { dst, .. }
        | OpCode::RowGet { dst, .. }
        | OpCode::YieldWithTarget { dst, .. }
        | OpCode::HttpCall { dst, .. }
        | OpCode::HttpRequest { dst, .. }
        | OpCode::JsonBindLocal { dst, .. }
        | OpCode::JsonInjectLocal { table_reg: dst, .. }
        | OpCode::StoreRead { dst, .. } => {
            ts[dst as usize] = TypeTag::Unknown;
        },
        OpCode::FiberCreate { dst, .. } => {
            ts[dst as usize] = TypeTag::Fiber;
        },
        OpCode::EnvGet { dst, .. } | OpCode::CryptoHash { dst, .. } | OpCode::CryptoToken { dst, .. } => {
            ts[dst as usize] = TypeTag::String;
        },
        OpCode::EnvArgs { dst } | OpCode::StoreList { dst, .. } | OpCode::StoreGlob { dst, .. } => {
            ts[dst as usize] = TypeTag::Array;
        },
        OpCode::CryptoVerify { dst, .. }
        | OpCode::StoreExists { dst, .. }
        | OpCode::StoreIsDir { dst, .. }
        | OpCode::HttpRespond { dst, .. } => {
            ts[dst as usize] = TypeTag::Bool;
        },
        OpCode::StoreSize { dst, .. } => {
            ts[dst as usize] = TypeTag::Int;
        },
        OpCode::GetVar { dst, idx } => {
            let ty = match globals.get(&idx) {
                Some(t) => *t,
                None => TypeTag::Unknown,
            };
            ts[dst as usize] = ty;
        },
        OpCode::SetVar { idx, src } => {
            let ty = ts[src as usize];
            globals.insert(idx, ty);
        },
        OpCode::IncVar { idx } | OpCode::DecVar { idx } => {
            globals.insert(idx, TypeTag::Int);
        },
        _ => {},
    }
}

} // verus!

verus! {

/// The state of the type dataflow between worklist steps.
pub struct TypeRun {
    /// The register types at the start of each instruction.
    pub types: Seq<Seq<TypeTag>>,
    /// Which instructions have been given types.
    pub visited: Seq<bool>,
    /// The instructions waiting to be processed, in order.
    pub queue: Seq<int>,
    /// The type each global was last given.
    pub globals: Map<u32, TypeTag>,
    /// Whether some processed instruction left a heap type in a register.
    pub uses_heap: bool,
}

/// Propagates `out` into successor `succ`: a first visit copies it, a later one
/// joins it; a changed successor is queued unless it already is.
pub open spec fn merge_succ(st: TypeRun, out: Seq<TypeTag>, succ: int, n: int) -> TypeRun {
    if !(0 <= succ < n) {
        st
    } else if !st.visited[succ] {
        TypeRun {
            types: st.types.update(succ, out),
            visited: st.visited.update(succ, true),
            queue: if st.queue.contains(succ) {
                st.queue
            } else {
                st.queue.push(succ)
            },
            ..st
        }
    } else if join_types(st.types[succ], out) == st.types[succ] {
        st
    } else {
        TypeRun {
            types: st.types.update(succ, join_types(st.types[succ], out)),
            queue: if st.queue.contains(succ) {
                st.queue
            } else {
                st.queue.push(succ)
            },
            ..st
        }
    }
}

/// Propagates `out` into each of `succs` in turn.
pub open spec fn merge_all(st: TypeRun, out: Seq<TypeTag>, succs: Seq<int>, n: int) -> TypeRun
    decreases succs.len(),
{
    if succs.len() == 0 {
        st
    } else {
        merge_succ(merge_all(st, out, succs.drop_last(), n), out, succs.last(), n)
    }
}

/// One worklist step: take the first queued instruction, apply it to its
/// types and the globals, note heap types, and propagate to its successors.
pub open spec fn type_step(
    ops: Seq<OpCode>,
    constants: Seq<Value>,
    self_func_idx: u32,
    hints: Set<u8>,
    st: TypeRun,
) -> TypeRun {
    if st.queue.len() == 0 {
        st
    } else {
        let ip = st.queue[0];
        let (out, globals) = type_transfer(ops[ip], st.types[ip], st.globals, constants, self_func_idx, hints);
        merge_all(
            TypeRun {
                queue: st.queue.drop_first(),
                globals,
                uses_heap: st.uses_heap || has_heap_type(out),
                ..st
            },
            out,
            next_ips(ops[ip], ip),
            ops.len() as int,
        )
    }
}

/// The start of the dataflow: the entry carries `init`, every other instruction
/// is unvisited with all registers `Unknown`, and only the entry is queued.
pub open spec fn type_start(n: int, init: Seq<TypeTag>) -> TypeRun {
    TypeRun {
        types: Seq::new(n as nat, |ip: int| if ip == 0 { init } else { Seq::new(256, |r: int| TypeTag::Unknown) }),
        visited: Seq::new(n as nat, |ip: int| ip == 0),
        queue: seq![0],
        globals: Map::empty(),
        uses_heap: false,
    }
}

/// The dataflow after `k` worklist steps.
pub open spec fn type_run(
    ops: Seq<OpCode>,
    constants: Seq<Value>,
    self_func_idx: u32,
    hints: Set<u8>,
    init: Seq<TypeTag>,
    k: nat,
) -> TypeRun
    decreases k,
{
    if k == 0 {
        type_start(ops.len() as int, init)
    } else {
        type_step(ops, constants, self_func_idx, hints, type_run(ops, constants, self_func_idx, hints, init, (k - 1) as nat))
    }
}

/// The entry types: the given ones, or those guessed from the parameters.
pub open spec fn entry_types(ops: Seq<OpCode>, initial: Option<Seq<TypeTag>>, arity: usize) -> Seq<TypeTag> {
    match initial {
        Some(t) => t,
        None => param_types(ops, arity),
    }
}

/// The entry types for an optional given type array.
pub open spec fn entry_of(ops: Seq<OpCode>, initial: Option<&[TypeTag; 256]>, arity: usize) -> Seq<TypeTag> {
    entry_types(
        ops,
        match initial {
            Some(t) => Some(t@),
            None => None,
        },
        arity,
    )
}

/// The number of registers with a known type.
pub open spec fn known_count(ts: Seq<TypeTag>) -> nat
    decreases ts.len(),
{
    if ts.len() == 0 {
        0
    } else {
        known_count(ts.drop_last()) + if ts.last() != TypeTag::Unknown { 1nat } else { 0nat }
    }
}

/// What is left to learn about instructions `0..k`: every unvisited instruction
/// counts 257, a visited one the number of its registers that still have a
/// known type.
pub open spec fn run_measure(types: Seq<Seq<TypeTag>>, visited: Seq<bool>, k: int) -> nat
    decreases k,
{
    if k <= 0 {
        0
    } else {
        run_measure(types, visited, k - 1) + if visited[k - 1] {
            known_count(types[k - 1])
        } else {
            257nat
        }
    }
}

proof fn lemma_known_weaken(a: Seq<TypeTag>, b: Seq<TypeTag>)
    requires
        a.len() == b.len(),
        forall|r: int| 0 <= r < a.len() && a[r] != TypeTag::Unknown ==> b[r] == a[r],
    ensures
        known_count(a) <= known_count(b),
        a != b ==> known_count(a) < known_count(b),
    decreases a.len(),
{
    if a.len() == 0 {
        assert(a =~= b);
    } else {
        lemma_known_weaken(a.drop_last(), b.drop_last());
        if a != b {
            if a.drop_last() == b.drop_last() {
                assert(a.last() != b.last()) by {
                    if a.last() == b.last() {
                        assert forall|r: int| 0 <= r < a.len() implies a[r] == b[r] by {
                            if r < a.len() - 1 {
                                assert(a[r] == a.drop_last()[r]);
                                assert(b[r] == b.drop_last()[r]);
                            }
                        }
                        assert(a =~= b);
                    }
                }
            }
        }
    }
}

proof fn lemma_known_bound(a: Seq<TypeTag>)
    ensures
        known_count(a) <= a.len(),
    decreases a.len(),
{
    if a.len() > 0 {
        lemma_known_bound(a.drop_last());
    }
}

proof fn lemma_measure_bound(types: Seq<Seq<TypeTag>>, visited: Seq<bool>, k: int)
    requires
        0 <= k <= types.len(),
        types.len() == visited.len(),
        forall|i: int| 0 <= i < k ==> (#[trigger] types[i]).len() <= 256,
        k >= 1 ==> visited[0],
    ensures
        run_measure(types, visited, k) <= 257 * k,
        k >= 1 ==> run_measure(types, visited, k) + 1 <= 257 * k,
    decreases k,
{
    if k > 0 {
        lemma_measure_bound(types, visited, k - 1);
        lemma_known_bound(types[k - 1]);
    }
}

proof fn lemma_measure_update(types: Seq<Seq<TypeTag>>, visited: Seq<bool>, i: int, t: Seq<TypeTag>, v: bool, k: int)
    requires
        0 <= i < types.len(),
        types.len() == visited.len(),
        0 <= k <= types.len(),
    ensures
        run_measure(types.update(i, t), visited.update(i, v), k) + (if i < k {
            if visited[i] {
                known_count(types[i])
            } else {
                257nat
            }
        } else {
            0nat
        }) == run_measure(types, visited, k) + (if i < k {
            if v {
                known_count(t)
            } else {
                257nat
            }
        } else {
            0nat
        }),
    decreases k,
{
    if k > 0 {
        lemma_measure_update(types, visited, i, t, v, k - 1);
    }
}

} // verus!

verus! {

/// The exec state of the type dataflow stands for `run`.
pub open spec fn run_matches(
    types_at: Seq<[TypeTag; 256]>,
    visited: Seq<bool>,
    in_queue: Seq<bool>,
    queue: Seq<usize>,
    globals: Map<u32, TypeTag>,
    uses_heap: bool,
    run: TypeRun,
    n: int,
) -> bool {
    &&& types_at.len() == n
    &&& run.types.len() == n
    &&& forall|ip: int| 0 <= ip < n ==> #[trigger] types_at[ip]@ == run.types[ip]
    &&& visited == run.visited
    &&& visited.len() == n
    &&& in_queue.len() == n
    &&& queue.len() == run.queue.len()
    &&& forall|i: int| 0 <= i < queue.len() ==> #[trigger] queue[i] as int == run.queue[i]
    &&& forall|i: int| 0 <= i < queue.len() ==> #[trigger] queue[i] < n
    &&& queue.no_duplicates()
    &&& forall|q: int| 0 <= q < n ==> (#[trigger] in_queue[q] <==> queue.contains(q as usize))
    &&& globals == run.globals
    &&& uses_heap == run.uses_heap
}

fn is_heap_type_exec(t: TypeTag) -> (b: bool)
    ensures
        b == is_heap_type(t),
{
    match t {
        TypeTag::Int | TypeTag::Float | TypeTag::Bool | TypeTag::Unknown | TypeTag::BoolArray => false,
        _ => true,
    }
}

fn any_heap_type(ts: &[TypeTag; 256]) -> (b: bool)
    ensures
        b == has_heap_type(ts@),
{
    let mut i: usize = 0;
    while i < 256
        invariant
            i <= 256,
            forall|r: int| 0 <= r < i ==> !#[trigger] is_heap_type(ts@[r]),
        decreases 256 - i,
    {
        if is_heap_type_exec(ts[i]) {
            return true;
        }
        i = i + 1;
    }
    false
}

/// Joins `out` into `t`; says whether `t` changed.
fn join_into(t: &mut [TypeTag; 256], out: &[TypeTag; 256]) -> (changed: bool)
    ensures
        final(t)@ == join_types(old(t)@, out@),
        changed == (join_types(old(t)@, out@) != old(t)@),
{
    let ghost orig = t@;
    let mut changed = false;
    let mut r: usize = 0;
    while r < 256
        invariant
            r <= 256,
            t@.len() == 256,
            orig.len() == 256,
            out@.len() == 256,
            forall|x: int| 0 <= x < r ==> #[trigger] t@[x] == join_types(orig, out@)[x],
            forall|x: int| r <= x < 256 ==> #[trigger] t@[x] == orig[x],
            changed == exists|x: int| 0 <= x < r && #[trigger] t@[x] != orig[x],
        decreases 256 - r,
    {
        let in_t = t[r];
        let ghost before = t@;
        if in_t != out[r] && in_t != TypeTag::Unknown {
            t[r] = TypeTag::Unknown;
            changed = true;
            assert(t@[r as int] != orig[r as int]);
        } else {
            assert(t@ == before);
        }
        proof {
            assert(join_types(orig, out@)[r as int] == t@[r as int]);
            if !changed {
                assert forall|x: int| 0 <= x < r + 1 implies !(#[trigger] t@[x] != orig[x]) by {
                    if x < r {
                        assert(!(before[x] != orig[x]));
                    }
                }
            }
        }
        r = r + 1;
    }
    assert(t@ =~= join_types(orig, out@));
    proof {
        if changed {
            let x = choose|x: int| 0 <= x < r && #[trigger] t@[x] != orig[x];
            assert(join_types(orig, out@)[x] != orig[x]);
        } else {
            assert(join_types(orig, out@) =~= orig);
        }
    }
    changed
}

/// The register types at the start of every instruction of a chunk, and
/// whether any instruction leaves a heap type in a register. A worklist from
/// the entry applies each instruction to its types and to the types last
/// stored in the globals; a successor met for the first time takes the result,
/// and one met again keeps only the register types on which both agree.
/// The result is the state that this worklist reaches when it runs dry.
pub fn analyze_chunk_types(
    bytecode: &[OpCode],
    constants: &[Value],
    initial_types: Option<&[TypeTag; 256]>,
    arity: usize,
    self_func_idx: u32,
    bool_array_hints: &HashSet<u8>,
) -> (result: (Vec<[TypeTag; 256]>, bool))
    requires
        bytecode@.len() > 0,
    ensures
        result.0@.len() == bytecode@.len(),
        exists|k: nat|
            {
                let run = #[trigger] type_run(
                    bytecode@,
                    constants@,
                    self_func_idx,
                    bool_array_hints@,
                    entry_of(bytecode@, initial_types, arity),
                    k,
                );
                &&& k <= 257 * bytecode@.len()
                &&& run.queue.len() == 0
                &&& forall|ip: int| 0 <= ip < bytecode@.len() ==> #[trigger] result.0@[ip]@ == run.types[ip]
                &&& result.1 == run.uses_heap
            },
        no_edge_to_entry(bytecode@) ==> result.0@[0]@ == entry_of(bytecode@, initial_types, arity),
{
    let n = bytecode.len();
    let ghost ops = bytecode@;
    let ghost cs = constants@;
    let ghost hints = bool_array_hints@;
    let ghost init = entry_of(bytecode@, initial_types, arity);
    let mut uses_heap = false;
    let mut types_at: Vec<[TypeTag; 256]> = Vec::new();
    let mut i: usize = 0;
    while i < n
        invariant
            i <= n,
            types_at@.len() == i,
            forall|ip: int| 0 <= ip < i ==> #[trigger] types_at@[ip]@ == Seq::new(256, |r: int| TypeTag::Unknown),
        decreases n - i,
    {
        let blank = [TypeTag::Unknown; 256];
        assert(blank@ =~= Seq::new(256, |r: int| TypeTag::Unknown));
        types_at.push(blank);
        i = i + 1;
    }
    match initial_types {
        Some(init_types) => {
            types_at.set(0, *init_types);
        },
        None => {
            types_at.set(0, infer_param_types(bytecode, arity, constants));
        },
    }
    let mut worklist: VecDeque<usize> = VecDeque::new();
    worklist.push_back(0);
    let mut in_worklist: Vec<bool> = vec![false; n];
    in_worklist.set(0, true);
    let mut visited: Vec<bool> = vec![false; n];
    visited.set(0, true);
    let mut global_types: HashMap<u32, TypeTag> = HashMap::new();
    let ghost mut k: nat = 0;
    let ghost phi0: int = (run_measure(type_start(n as int, init).types, type_start(n as int, init).visited, n as int) + 1) as int;
    proof {
        let st = type_run(ops, cs, self_func_idx, hints, init, 0);
        lemma_type_run_inv(ops, cs, self_func_idx, hints, init, 0);
        lemma_measure_bound(st.types, st.visited, n as int);
        assert(visited@ =~= st.visited);
        assert forall|q: int| 0 <= q < n implies (#[trigger] in_worklist@[q] <==> worklist@.contains(q as usize)) by {
            if q == 0 {
                assert(worklist@[0] == 0usize);
            }
        }
        assert(global_types@ =~= st.globals);
    }
    while worklist.len() > 0
        invariant
            n == bytecode@.len(),
            n > 0,
            ops == bytecode@,
            cs == constants@,
            hints == bool_array_hints@,
            run_matches(
                types_at@,
                visited@,
                in_worklist@,
                worklist@,
                global_types@,
                uses_heap,
                type_run(ops, cs, self_func_idx, hints, init, k),
                n as int,
            ),
            phi0 <= 257 * n,
            run_measure(
                type_run(ops, cs, self_func_idx, hints, init, k).types,
                type_run(ops, cs, self_func_idx, hints, init, k).visited,
                n as int,
            ) + type_run(ops, cs, self_func_idx, hints, init, k).queue.len() + k <= phi0,
        decreases run_measure(type_run(ops, cs, self_func_idx, hints, init, k).types, type_run(ops, cs, self_func_idx, hints, init, k).visited, n as int),
            worklist@.len(),
    {
        let ghost st = type_run(ops, cs, self_func_idx, hints, init, k);
        let ghost m0 = run_measure(st.types, st.visited, n as int);
        let ghost wl_before = worklist@;
        let ip = worklist.pop_front().unwrap();
        proof {
            assert(wl_before[0] == ip);
            assert(!worklist@.contains(ip)) by {
                if worklist@.contains(ip) {
                    let i = choose|i: int| 0 <= i < worklist@.len() && worklist@[i] == ip;
                    assert(wl_before[i + 1] == ip);
                }
            }
        }
        in_worklist.set(ip, false);
        let op = bytecode[ip];
        let mut out = types_at[ip];
        transfer_types(&op, &mut out, &mut global_types, constants, self_func_idx, bool_array_hints);
        if any_heap_type(&out) {
            uses_heap = true;
        }
        let ghost st2 = TypeRun {
            queue: st.queue.drop_first(),
            globals: global_types@,
            uses_heap: uses_heap,
            ..st
        };
        proof {
            assert forall|q: int| 0 <= q < n implies (#[trigger] in_worklist@[q] <==> worklist@.contains(q as usize)) by {
                if q != ip as int {
                    if wl_before.contains(q as usize) {
                        let i = choose|i: int| 0 <= i < wl_before.len() && wl_before[i] == q as usize;
                        assert(i != 0);
                        assert(worklist@[i - 1] == q as usize);
                    }
                    if worklist@.contains(q as usize) {
                        let i = choose|i: int| 0 <= i < worklist@.len() && worklist@[i] == q as usize;
                        assert(wl_before[i + 1] == q as usize);
                    }
                }
            }
            assert(run_matches(types_at@, visited@, in_worklist@, worklist@, global_types@, uses_heap, st2, n as int)) by {
                assert forall|i: int| 0 <= i < worklist@.len() implies #[trigger] worklist@[i] as int == st2.queue[i] by {
                    assert(wl_before[i + 1] == worklist@[i]);
                }
                assert forall|i: int| 0 <= i < worklist@.len() implies #[trigger] worklist@[i] < n by {
                    assert(wl_before[i + 1] == worklist@[i]);
                }
            }
        }
        let ghost succ_seq = next_ips(op, ip as int);
        let mut succs: Vec<usize> = Vec::new();
        match op.jump_target() {
            Some(target) => {
                succs.push(target as usize);
                if !op.is_unconditional_jump() {
                    succs.push(ip + 1);
                }
            },
            None => {
                if !op.is_return() && !op.is_halt() {
                    succs.push(ip + 1);
                }
            },
        }
        assert(succs@.len() == succ_seq.len());
        assert(forall|j: int| 0 <= j < succs@.len() ==> succs@[j] as int == succ_seq[j]);
        let mut j: usize = 0;
        while j < succs.len()
            invariant
                n == bytecode@.len(),
                n > 0,
                succs@.len() == succ_seq.len(),
                forall|jj: int| 0 <= jj < succs@.len() ==> succs@[jj] as int == succ_seq[jj],
                j <= succs@.len(),
                run_matches(
                    types_at@,
                    visited@,
                    in_worklist@,
                    worklist@,
                    global_types@,
                    uses_heap,
                    merge_all(st2, out@, succ_seq.take(j as int), n as int),
                    n as int,
                ),
                ({
                    let cur = merge_all(st2, out@, succ_seq.take(j as int), n as int);
                    &&& run_measure(cur.types, cur.visited, n as int) <= m0
                    &&& (run_measure(cur.types, cur.visited, n as int) < m0 || cur.queue.len() < st.queue.len())
                    &&& run_measure(cur.types, cur.visited, n as int) + cur.queue.len() < m0 + st.queue.len()
                }),
            decreases succs@.len() - j,
        {
            let succ = succs[j];
            let ghost cur = merge_all(st2, out@, succ_seq.take(j as int), n as int);
            assert(succ_seq.take(j as int + 1).drop_last() =~= succ_seq.take(j as int));
            assert(succ_seq.take(j as int + 1).last() == succ as int);
            if succ < n {
                if !visited[succ] {
                    let ghost old_ts = types_at@;
                    visited.set(succ, true);
                    types_at.set(succ, out);
                    proof {
                        lemma_measure_update(cur.types, cur.visited, succ as int, out@, true, n as int);
                        lemma_known_bound(out@);
                    }
                    if !in_worklist[succ] {
                        let ghost qb = worklist@;
                        worklist.push_back(succ);
                        in_worklist.set(succ, true);
                        proof {
                            assert(!cur.queue.contains(succ as int)) by {
                                if cur.queue.contains(succ as int) {
                                    let i = choose|i: int| 0 <= i < cur.queue.len() && cur.queue[i] == succ as int;
                                    assert(qb[i] == succ);
                                }
                            }
                            assert forall|q: int| 0 <= q < n implies (#[trigger] in_worklist@[q] <==> worklist@.contains(q as usize)) by {
                                if worklist@.contains(q as usize) {
                                    let i = choose|i: int| 0 <= i < worklist@.len() && worklist@[i] == q as usize;
                                    if i < qb.len() {
                                        assert(qb.contains(q as usize));
                                    }
                                }
                                if q != succ && qb.contains(q as usize) {
                                    let i = choose|i: int| 0 <= i < qb.len() && qb[i] == q as usize;
                                    assert(worklist@[i] == q as usize);
                                }
                                if q == succ {
                                    assert(worklist@[qb.len() as int] == succ);
                                }
                            }
                        }
                    } else {
                        proof {
                            let i = choose|i: int| 0 <= i < worklist@.len() && worklist@[i] == succ;
                            assert(cur.queue[i] == succ as int);
                        }
                    }
                    proof {
                        let nxt = merge_all(st2, out@, succ_seq.take(j as int + 1), n as int);
                        assert(visited@ =~= nxt.visited);
                        assert forall|q: int| 0 <= q < n implies #[trigger] types_at@[q]@ == nxt.types[q] by {
                            if q != succ {
                                assert(types_at@[q] == old_ts[q]);
                            }
                        }
                        assert forall|i: int| 0 <= i < worklist@.len() implies #[trigger] worklist@[i] as int == nxt.queue[i] by {}
                    }
                } else {
                    let mut t = types_at[succ];
                    let changed = join_into(&mut t, &out);
                    if changed {
                        let ghost old_ts = types_at@;
                        types_at.set(succ, t);
                        proof {
                            lemma_measure_update(cur.types, cur.visited, succ as int, t@, true, n as int);
                            lemma_known_weaken(t@, cur.types[succ as int]);
                        }
                        if !in_worklist[succ] {
                            let ghost qb = worklist@;
                            worklist.push_back(succ);
                            in_worklist.set(succ, true);
                            proof {
                                assert(!cur.queue.contains(succ as int)) by {
                                    if cur.queue.contains(succ as int) {
                                        let i = choose|i: int| 0 <= i < cur.queue.len() && cur.queue[i] == succ as int;
                                        assert(qb[i] == succ);
                                    }
                                }
                                assert forall|q: int| 0 <= q < n implies (#[trigger] in_worklist@[q] <==> worklist@.contains(q as usize)) by {
                                    if worklist@.contains(q as usize) {
                                        let i = choose|i: int| 0 <= i < worklist@.len() && worklist@[i] == q as usize;
                                        if i < qb.len() {
                                            assert(qb.contains(q as usize));
                                        }
                                    }
                                    if q != succ && qb.contains(q as usize) {
                                        let i = choose|i: int| 0 <= i < qb.len() && qb[i] == q as usize;
                                        assert(worklist@[i] == q as usize);
                                    }
                                    if q == succ {
                                        assert(worklist@[qb.len() as int] == succ);
                                    }
                                }
                            }
                        } else {
                            proof {
                                let i = choose|i: int| 0 <= i < worklist@.len() && worklist@[i] == succ;
                                assert(cur.queue[i] == succ as int);
                            }
                        }
                        proof {
                            let nxt = merge_all(st2, out@, succ_seq.take(j as int + 1), n as int);
                            assert(visited@.update(succ as int, true) =~= visited@);
                            assert forall|q: int| 0 <= q < n implies #[trigger] types_at@[q]@ == nxt.types[q] by {
                                if q != succ {
                                    assert(types_at@[q] == old_ts[q]);
                                }
                            }
                            assert forall|i: int| 0 <= i < worklist@.len() implies #[trigger] worklist@[i] as int == nxt.queue[i] by {}
                        }
                    }
                }
            }
            j = j + 1;
        }
        proof {
            assert(succ_seq.take(succ_seq.len() as int) =~= succ_seq);
            k = k + 1;
        }
    }
    proof {
        assert(worklist@.len() == 0);
        if no_edge_to_entry(ops) {
            law_entry_types_kept_without_back_edge(ops, cs, self_func_idx, hints, init, k);
        }
    }
    (types_at, uses_heap)
}

} // verus!

verus! {

/// Each register of `t` keeps its entry type or has become `Unknown`.
pub open spec fn entry_compatible(t: Seq<TypeTag>, init: Seq<TypeTag>) -> bool {
    &&& t.len() == 256
    &&& forall|r: int| 0 <= r < 256 ==> #[trigger] t[r] == init[r] || t[r] == TypeTag::Unknown
}

/// What holds of every state of the type dataflow.
pub open spec fn run_inv(st: TypeRun, n: int, init: Seq<TypeTag>) -> bool {
    &&& n > 0
    &&& st.types.len() == n
    &&& st.visited.len() == n
    &&& st.visited[0]
    &&& entry_compatible(st.types[0], init)
    &&& forall|ip: int| 1 <= ip < n ==> #[trigger] has_heap_type(st.types[ip]) ==> st.uses_heap
}

proof fn lemma_join_heap(a: Seq<TypeTag>, b: Seq<TypeTag>)
    requires
        has_heap_type(join_types(a, b)),
    ensures
        has_heap_type(a),
{
    let r = choose|r: int| 0 <= r < join_types(a, b).len() && #[trigger] is_heap_type(join_types(a, b)[r]);
    assert(is_heap_type(a[r]));
}

proof fn lemma_merge_succ_inv(st: TypeRun, out: Seq<TypeTag>, succ: int, n: int, init: Seq<TypeTag>)
    requires
        run_inv(st, n, init),
        has_heap_type(out) ==> st.uses_heap,
    ensures
        run_inv(merge_succ(st, out, succ, n), n, init),
        merge_succ(st, out, succ, n).uses_heap == st.uses_heap,
{
    let nx = merge_succ(st, out, succ, n);
    if 0 <= succ < n && st.visited[succ] && join_types(st.types[succ], out) != st.types[succ] {
        if succ == 0 {
            assert(entry_compatible(nx.types[0], init));
        }
        assert forall|ip: int| 1 <= ip < n && #[trigger] has_heap_type(nx.types[ip]) implies nx.uses_heap by {
            if ip == succ {
                lemma_join_heap(st.types[succ], out);
            }
        }
    }
}

proof fn lemma_merge_all_inv(st: TypeRun, out: Seq<TypeTag>, succs: Seq<int>, n: int, init: Seq<TypeTag>)
    requires
        run_inv(st, n, init),
        has_heap_type(out) ==> st.uses_heap,
    ensures
        run_inv(merge_all(st, out, succs, n), n, init),
        merge_all(st, out, succs, n).uses_heap == st.uses_heap,
    decreases succs.len(),
{
    if succs.len() > 0 {
        lemma_merge_all_inv(st, out, succs.drop_last(), n, init);
        lemma_merge_succ_inv(merge_all(st, out, succs.drop_last(), n), out, succs.last(), n, init);
    }
}

proof fn lemma_type_run_inv(
    ops: Seq<OpCode>,
    constants: Seq<Value>,
    self_func_idx: u32,
    hints: Set<u8>,
    init: Seq<TypeTag>,
    k: nat,
)
    requires
        ops.len() > 0,
        init.len() == 256,
    ensures
        run_inv(type_run(ops, constants, self_func_idx, hints, init, k), ops.len() as int, init),
    decreases k,
{
    let n = ops.len() as int;
    if k == 0 {
        let st = type_start(n, init);
        assert forall|ip: int| 1 <= ip < n && #[trigger] has_heap_type(st.types[ip]) implies st.uses_heap by {
            let r = choose|r: int| 0 <= r < st.types[ip].len() && #[trigger] is_heap_type(st.types[ip][r]);
        }
    } else {
        lemma_type_run_inv(ops, constants, self_func_idx, hints, init, (k - 1) as nat);
        let st = type_run(ops, constants, self_func_idx, hints, init, (k - 1) as nat);
        if st.queue.len() > 0 {
            let ip = st.queue[0];
            let (out, globals) = type_transfer(ops[ip], st.types[ip], st.globals, constants, self_func_idx, hints);
            let st2 = TypeRun {
                queue: st.queue.drop_first(),
                globals,
                uses_heap: st.uses_heap || has_heap_type(out),
                ..st
            };
            lemma_merge_all_inv(st2, out, next_ips(ops[ip], ip), n, init);
        }
    }
}

/// Law: at the entry, every register keeps its entry type or loses it to
/// `Unknown`; the dataflow never gives the entry a type it did not start with.
pub proof fn law_entry_types_only_forget(
    ops: Seq<OpCode>,
    constants: Seq<Value>,
    self_func_idx: u32,
    hints: Set<u8>,
    init: Seq<TypeTag>,
    k: nat,
    r: int,
)
    requires
        ops.len() > 0,
        init.len() == 256,
        0 <= r < 256,
    ensures
        type_run(ops, constants, self_func_idx, hints, init, k).types[0][r] == init[r]
            || type_run(ops, constants, self_func_idx, hints, init, k).types[0][r] == TypeTag::Unknown,
{
    lemma_type_run_inv(ops, constants, self_func_idx, hints, init, k);
}

/// Law: when the analysis gives some register a heap type at an instruction
/// other than the entry, it also reports that the chunk uses the heap.
pub proof fn law_heap_types_are_flagged(
    ops: Seq<OpCode>,
    constants: Seq<Value>,
    self_func_idx: u32,
    hints: Set<u8>,
    init: Seq<TypeTag>,
    k: nat,
    ip: int,
)
    requires
        init.len() == 256,
        1 <= ip < ops.len(),
        has_heap_type(type_run(ops, constants, self_func_idx, hints, init, k).types[ip]),
    ensures
        type_run(ops, constants, self_func_idx, hints, init, k).uses_heap,
{
    lemma_type_run_inv(ops, constants, self_func_idx, hints, init, k);
}

} // verus!

verus! {

/// `a` already agrees with `b` wherever it knows a type: joining `b` into it
/// changes nothing.
pub open spec fn absorbs(a: Seq<TypeTag>, b: Seq<TypeTag>) -> bool {
    forall|r: int| 0 <= r < a.len() ==> a[r] == b[r] || a[r] == TypeTag::Unknown
}

/// The register types after instruction `ip`, from `ts`, for code whose
/// register types do not depend on the globals.
pub open spec fn out_at(
    ops: Seq<OpCode>,
    constants: Seq<Value>,
    self_func_idx: u32,
    hints: Set<u8>,
    ts: Seq<TypeTag>,
    ip: int,
) -> Seq<TypeTag> {
    type_transfer(ops[ip], ts, Map::empty(), constants, self_func_idx, hints).0
}

/// A visited instruction other than a `GetVar` that is not waiting to be
/// processed has passed its types on: each successor within the chunk is
/// visited and agrees with them.
pub open spec fn flow_ok(
    ops: Seq<OpCode>,
    constants: Seq<Value>,
    self_func_idx: u32,
    hints: Set<u8>,
    st: TypeRun,
    q: int,
) -> bool {
    0 <= q < ops.len() && !(ops[q] is GetVar) && st.visited[q] && !st.queue.contains(q) ==> forall|j: int|
        #![trigger next_ips(ops[q], q)[j]]
        0 <= j < next_ips(ops[q], q).len() && 0 <= next_ips(ops[q], q)[j] < ops.len() ==> st.visited[next_ips(
            ops[q],
            q,
        )[j]] && absorbs(
            st.types[next_ips(ops[q], q)[j]],
            out_at(ops, constants, self_func_idx, hints, st.types[q], q),
        )
}

/// What the dataflow keeps of its queue and of the instructions it has done.
pub open spec fn flow_inv(
    ops: Seq<OpCode>,
    constants: Seq<Value>,
    self_func_idx: u32,
    hints: Set<u8>,
    st: TypeRun,
) -> bool {
    &&& st.types.len() == ops.len()
    &&& st.visited.len() == ops.len()
    &&& st.queue.no_duplicates()
    &&& forall|i: int| 0 <= i < st.queue.len() ==> 0 <= #[trigger] st.queue[i] < ops.len() && st.visited[st.queue[i]]
    &&& forall|q: int| #[trigger] flow_ok(ops, constants, self_func_idx, hints, st, q)
}

proof fn lemma_no_globals(op: OpCode, ts: Seq<TypeTag>, g: Map<u32, TypeTag>, constants: Seq<Value>, f: u32, hints: Set<u8>)
    requires
        !(op is GetVar),
    ensures
        type_transfer(op, ts, g, constants, f, hints).0 == type_transfer(op, ts, Map::empty(), constants, f, hints).0,
{
}

proof fn lemma_absorbs_join(a: Seq<TypeTag>, b: Seq<TypeTag>, c: Seq<TypeTag>)
    ensures
        absorbs(a, c) ==> absorbs(join_types(a, b), c),
        absorbs(join_types(a, b), b),
        join_types(a, b) == a ==> absorbs(a, b),
        absorbs(a, b) ==> join_types(a, b) == a,
{
    if join_types(a, b) == a {
        assert forall|r: int| 0 <= r < a.len() implies a[r] == b[r] || a[r] == TypeTag::Unknown by {
            assert(join_types(a, b)[r] == a[r]);
        }
    }
    if absorbs(a, b) {
        assert(join_types(a, b) =~= a);
    }
}

/// One successor merge keeps the flow facts of every instruction but the
/// one being processed, and records that it passed its types on to `succ`.
proof fn lemma_merge_succ_flow(
    ops: Seq<OpCode>,
    constants: Seq<Value>,
    f: u32,
    hints: Set<u8>,
    st: TypeRun,
    out: Seq<TypeTag>,
    succ: int,
    ip: int,
    done: Set<int>,
)
    requires
        st.types.len() == ops.len(),
        st.visited.len() == ops.len(),
        st.queue.no_duplicates(),
        forall|i: int| 0 <= i < st.queue.len() ==> 0 <= #[trigger] st.queue[i] < ops.len() && st.visited[st.queue[i]],
        forall|q: int| q != ip ==> #[trigger] flow_ok(ops, constants, f, hints, st, q),
        0 <= ip < ops.len(),
        st.visited[ip],
        forall|t: int| #[trigger] done.contains(t) ==> 0 <= t < ops.len() && st.visited[t] && absorbs(st.types[t], out),
    ensures
        ({
            let nx = merge_succ(st, out, succ, ops.len() as int);
            &&& nx.types.len() == ops.len()
            &&& nx.visited.len() == ops.len()
            &&& nx.queue.no_duplicates()
            &&& forall|i: int| 0 <= i < nx.queue.len() ==> 0 <= #[trigger] nx.queue[i] < ops.len() && nx.visited[nx.queue[i]]
            &&& forall|q: int| q != ip ==> #[trigger] flow_ok(ops, constants, f, hints, nx, q)
            &&& nx.visited[ip]
            &&& forall|t: int| #[trigger] done.contains(t) ==> 0 <= t < ops.len() && nx.visited[t] && absorbs(nx.types[t], out)
            &&& 0 <= succ < ops.len() ==> nx.visited[succ] && absorbs(nx.types[succ], out)
            &&& (nx.types[ip] != st.types[ip] ==> nx.queue.contains(ip))
            &&& (st.queue.contains(ip) ==> nx.queue.contains(ip))
        }),
{
    let n = ops.len() as int;
    let nx = merge_succ(st, out, succ, n);
    if 0 <= succ < n {
        if !st.visited[succ] {
            assert(absorbs(out, out));
            if !st.queue.contains(succ) {
                assert(nx.queue.no_duplicates()) by {
                    assert forall|i: int, k: int| 0 <= i < k < nx.queue.len() implies nx.queue[i] != nx.queue[k] by {
                        if k == st.queue.len() {
                            assert(st.queue.contains(st.queue[i]));
                        }
                    }
                }
            }
            assert forall|q: int| q != ip implies #[trigger] flow_ok(ops, constants, f, hints, nx, q) by {
                if 0 <= q < n && !(ops[q] is GetVar) && nx.visited[q] && !nx.queue.contains(q) {
                    assert(q != succ) by {
                        if q == succ {
                            assert(nx.queue.contains(succ)) by {
                                if st.queue.contains(succ) {
                                    let i = choose|i: int| 0 <= i < st.queue.len() && st.queue[i] == succ;
                                    assert(nx.queue[i] == succ);
                                } else {
                                    assert(nx.queue[st.queue.len() as int] == succ);
                                }
                            }
                        }
                    }
                    assert(!st.queue.contains(q)) by {
                        if st.queue.contains(q) {
                            let i = choose|i: int| 0 <= i < st.queue.len() && st.queue[i] == q;
                            assert(nx.queue[i] == q);
                        }
                    }
                    assert(flow_ok(ops, constants, f, hints, st, q));
                    assert forall|j: int|
                        #![trigger next_ips(ops[q], q)[j]]
                        0 <= j < next_ips(ops[q], q).len() && 0 <= next_ips(ops[q], q)[j] < n implies nx.visited[next_ips(
                            ops[q],
                            q,
                        )[j]] && absorbs(
                            nx.types[next_ips(ops[q], q)[j]],
                            out_at(ops, constants, f, hints, nx.types[q], q),
                        ) by {
                        let t = next_ips(ops[q], q)[j];
                        assert(st.visited[t]);
                        assert(t != succ);
                    }
                }
            }
            assert forall|t: int| #[trigger] done.contains(t) implies 0 <= t < ops.len() && nx.visited[t] && absorbs(nx.types[t], out) by {
                assert(t != succ);
            }
        } else if join_types(st.types[succ], out) == st.types[succ] {
            lemma_absorbs_join(st.types[succ], out, out);
        } else {
            let nt = join_types(st.types[succ], out);
            lemma_absorbs_join(st.types[succ], out, out);
            if !st.queue.contains(succ) {
                assert(nx.queue.no_duplicates()) by {
                    assert forall|i: int, k: int| 0 <= i < k < nx.queue.len() implies nx.queue[i] != nx.queue[k] by {
                        if k == st.queue.len() {
                            assert(st.queue.contains(st.queue[i]));
                        }
                    }
                }
            }
            assert(nx.queue.contains(succ)) by {
                if st.queue.contains(succ) {
                    let i = choose|i: int| 0 <= i < st.queue.len() && st.queue[i] == succ;
                    assert(nx.queue[i] == succ);
                } else {
                    assert(nx.queue[st.queue.len() as int] == succ);
                }
            }
            assert forall|q: int| q != ip implies #[trigger] flow_ok(ops, constants, f, hints, nx, q) by {
                if 0 <= q < n && !(ops[q] is GetVar) && nx.visited[q] && !nx.queue.contains(q) {
                    assert(q != succ);
                    assert(!st.queue.contains(q)) by {
                        if st.queue.contains(q) {
                            let i = choose|i: int| 0 <= i < st.queue.len() && st.queue[i] == q;
                            assert(nx.queue[i] == q);
                        }
                    }
                    assert(flow_ok(ops, constants, f, hints, st, q));
                    assert forall|j: int|
                        #![trigger next_ips(ops[q], q)[j]]
                        0 <= j < next_ips(ops[q], q).len() && 0 <= next_ips(ops[q], q)[j] < n implies nx.visited[next_ips(
                            ops[q],
                            q,
                        )[j]] && absorbs(
                            nx.types[next_ips(ops[q], q)[j]],
                            out_at(ops, constants, f, hints, nx.types[q], q),
                        ) by {
                        let t = next_ips(ops[q], q)[j];
                        if t == succ {
                            lemma_absorbs_join(st.types[succ], out, out_at(ops, constants, f, hints, st.types[q], q));
                        }
                    }
                }
            }
            assert forall|t: int| #[trigger] done.contains(t) implies 0 <= t < ops.len() && nx.visited[t] && absorbs(nx.types[t], out) by {
                if t == succ {
                    lemma_absorbs_join(st.types[succ], out, out);
                }
            }
        }
    }
    assert forall|i: int| 0 <= i < nx.queue.len() implies 0 <= #[trigger] nx.queue[i] < ops.len() && nx.visited[nx.queue[i]] by {
        if i < st.queue.len() {
            assert(nx.queue[i] == st.queue[i]);
        }
    }
    if st.queue.contains(ip) {
        let i = choose|i: int| 0 <= i < st.queue.len() && st.queue[i] == ip;
        assert(nx.queue[i] == ip);
    }
}

} // verus!

verus! {

/// The in-range successors among `succs`.
pub open spec fn in_range_set(succs: Seq<int>, n: int) -> Set<int> {
    Set::new(|t: int| succs.contains(t) && 0 <= t < n)
}

proof fn lemma_merge_all_flow(
    ops: Seq<OpCode>,
    constants: Seq<Value>,
    f: u32,
    hints: Set<u8>,
    st: TypeRun,
    out: Seq<TypeTag>,
    succs: Seq<int>,
    ip: int,
)
    requires
        st.types.len() == ops.len(),
        st.visited.len() == ops.len(),
        st.queue.no_duplicates(),
        forall|i: int| 0 <= i < st.queue.len() ==> 0 <= #[trigger] st.queue[i] < ops.len() && st.visited[st.queue[i]],
        forall|q: int| q != ip ==> #[trigger] flow_ok(ops, constants, f, hints, st, q),
        0 <= ip < ops.len(),
        st.visited[ip],
    ensures
        ({
            let nx = merge_all(st, out, succs, ops.len() as int);
            &&& nx.types.len() == ops.len()
            &&& nx.visited.len() == ops.len()
            &&& nx.queue.no_duplicates()
            &&& forall|i: int| 0 <= i < nx.queue.len() ==> 0 <= #[trigger] nx.queue[i] < ops.len() && nx.visited[nx.queue[i]]
            &&& forall|q: int| q != ip ==> #[trigger] flow_ok(ops, constants, f, hints, nx, q)
            &&& nx.visited[ip]
            &&& forall|t: int| #[trigger] in_range_set(succs, ops.len() as int).contains(t) ==> nx.visited[t] && absorbs(nx.types[t], out)
            &&& (nx.types[ip] != st.types[ip] ==> nx.queue.contains(ip))
        }),
    decreases succs.len(),
{
    let n = ops.len() as int;
    if succs.len() == 0 {
        assert(in_range_set(succs, n) =~= Set::empty());
    } else {
        let pre = succs.drop_last();
        lemma_merge_all_flow(ops, constants, f, hints, st, out, pre, ip);
        let mid = merge_all(st, out, pre, n);
        lemma_merge_succ_flow(ops, constants, f, hints, mid, out, succs.last(), ip, in_range_set(pre, n));
        assert forall|t: int| #[trigger] in_range_set(succs, n).contains(t) implies in_range_set(pre, n).contains(t) || t
            == succs.last() by {
            let j = choose|j: int| 0 <= j < succs.len() && succs[j] == t;
            if j < succs.len() - 1 {
                assert(pre[j] == t);
            }
        }
    }
}

proof fn lemma_type_run_flow(
    ops: Seq<OpCode>,
    constants: Seq<Value>,
    f: u32,
    hints: Set<u8>,
    init: Seq<TypeTag>,
    k: nat,
)
    requires
        ops.len() > 0,
    ensures
        flow_inv(ops, constants, f, hints, type_run(ops, constants, f, hints, init, k)),
    decreases k,
{
    let n = ops.len() as int;
    if k == 0 {
        let st = type_start(n, init);
        assert forall|q: int| #[trigger] flow_ok(ops, constants, f, hints, st, q) by {
            if 0 <= q < n && st.visited[q] {
                assert(q == 0);
                assert(st.queue[0] == 0);
            }
        }
    } else {
        lemma_type_run_flow(ops, constants, f, hints, init, (k - 1) as nat);
        let st = type_run(ops, constants, f, hints, init, (k - 1) as nat);
        if st.queue.len() > 0 {
            let ip = st.queue[0];
            let (out, globals) = type_transfer(ops[ip], st.types[ip], st.globals, constants, f, hints);
            if !(ops[ip] is GetVar) {
                lemma_no_globals(ops[ip], st.types[ip], st.globals, constants, f, hints);
            }
            let st2 = TypeRun { queue: st.queue.drop_first(), globals, uses_heap: st.uses_heap || has_heap_type(out), ..st };
            assert forall|q: int| q != ip implies #[trigger] flow_ok(ops, constants, f, hints, st2, q) by {
                assert(flow_ok(ops, constants, f, hints, st, q));
                if st.queue.contains(q) {
                    let i = choose|i: int| 0 <= i < st.queue.len() && st.queue[i] == q;
                    assert(i != 0);
                    assert(st2.queue[i - 1] == q);
                }
            }
            assert(st2.queue.no_duplicates());
            assert forall|i: int| 0 <= i < st2.queue.len() implies 0 <= #[trigger] st2.queue[i] < ops.len() && st2.visited[st2.queue[i]] by {
                assert(st2.queue[i] == st.queue[i + 1]);
            }
            let succs = next_ips(ops[ip], ip);
            lemma_merge_all_flow(ops, constants, f, hints, st2, out, succs, ip);
            let nx = merge_all(st2, out, succs, n);
            assert(nx == type_run(ops, constants, f, hints, init, k));
            assert(!st2.queue.contains(ip)) by {
                if st2.queue.contains(ip) {
                    let i = choose|i: int| 0 <= i < st2.queue.len() && st2.queue[i] == ip;
                    assert(st.queue[i + 1] == ip);
                }
            }
            assert(flow_ok(ops, constants, f, hints, nx, ip)) by {
                if !(ops[ip] is GetVar) && nx.visited[ip] && !nx.queue.contains(ip) {
                    assert(nx.types[ip] == st.types[ip]);
                    assert forall|j: int|
                        #![trigger next_ips(ops[ip], ip)[j]]
                        0 <= j < next_ips(ops[ip], ip).len() && 0 <= next_ips(ops[ip], ip)[j] < n implies nx.visited[next_ips(
                            ops[ip],
                            ip,
                        )[j]] && absorbs(
                            nx.types[next_ips(ops[ip], ip)[j]],
                            out_at(ops, constants, f, hints, nx.types[ip], ip),
                        ) by {
                        assert(in_range_set(succs, n).contains(succs[j]));
                    }
                }
            }
            assert forall|q: int| #[trigger] flow_ok(ops, constants, f, hints, nx, q) by {
                if q != ip {
                }
            }
        }
    }
}

/// Law: once the dataflow has run dry, types agree where paths join: every
/// successor of a visited instruction is visited, and joining into it the
/// types that the instruction passes on changes nothing. This holds of every
/// instruction that does not read a global's type (`GetVar`): the global
/// types change as the worklist goes, and an instruction that read them is
/// not processed again when they change.
pub proof fn law_types_agree_where_paths_join(
    ops: Seq<OpCode>,
    constants: Seq<Value>,
    self_func_idx: u32,
    hints: Set<u8>,
    init: Seq<TypeTag>,
    k: nat,
    ip: int,
    j: int,
)
    requires
        ops.len() > 0,
        type_run(ops, constants, self_func_idx, hints, init, k).queue.len() == 0,
        0 <= ip < ops.len(),
        !(ops[ip] is GetVar),
        type_run(ops, constants, self_func_idx, hints, init, k).visited[ip],
        0 <= j < next_ips(ops[ip], ip).len(),
        0 <= next_ips(ops[ip], ip)[j] < ops.len(),
    ensures
        ({
            let run = type_run(ops, constants, self_func_idx, hints, init, k);
            let succ = next_ips(ops[ip], ip)[j];
            &&& run.visited[succ]
            &&& join_types(
                run.types[succ],
                type_transfer(ops[ip], run.types[ip], run.globals, constants, self_func_idx, hints).0,
            ) == run.types[succ]
        }),
{
    let run = type_run(ops, constants, self_func_idx, hints, init, k);
    lemma_type_run_flow(ops, constants, self_func_idx, hints, init, k);
    assert(flow_ok(ops, constants, self_func_idx, hints, run, ip));
    let succ = next_ips(ops[ip], ip)[j];
    lemma_no_globals(ops[ip], run.types[ip], run.globals, constants, self_func_idx, hints);
    lemma_absorbs_join(
        run.types[succ],
        type_transfer(ops[ip], run.types[ip], run.globals, constants, self_func_idx, hints).0,
        run.types[succ],
    );
}

} // verus!

verus! {

/// No instruction of `ops` passes control to the entry.
pub open spec fn no_edge_to_entry(ops: Seq<OpCode>) -> bool {
    forall|ip: int, j: int|
        0 <= ip < ops.len() && 0 <= j < next_ips(ops[ip], ip).len() ==> #[trigger] next_ips(ops[ip], ip)[j] != 0
}

/// All registers `Unknown`.
pub open spec fn all_unknown() -> Seq<TypeTag> {
    Seq::new(256, |r: int| TypeTag::Unknown)
}

proof fn lemma_merge_all_keeps(st: TypeRun, out: Seq<TypeTag>, succs: Seq<int>, n: int)
    requires
        st.types.len() == n,
        st.visited.len() == n,
    ensures
        ({
            let nx = merge_all(st, out, succs, n);
            &&& nx.types.len() == n
            &&& nx.visited.len() == n
            &&& !succs.contains(0) ==> nx.types[0] == st.types[0]
            &&& forall|q: int| 0 <= q < n && !#[trigger] nx.visited[q] ==> !st.visited[q] && nx.types[q] == st.types[q]
        }),
    decreases succs.len(),
{
    if succs.len() == 0 {
        assert(merge_all(st, out, succs, n) == st);
    } else {
        lemma_merge_all_keeps(st, out, succs.drop_last(), n);
        let mid = merge_all(st, out, succs.drop_last(), n);
        let nx = merge_all(st, out, succs, n);
        let last = succs[succs.len() - 1];
        assert(nx == merge_succ(mid, out, last, n));
        assert forall|q: int| 0 <= q < n && !#[trigger] nx.visited[q] implies !st.visited[q] && nx.types[q] == st.types[q] by {
            if q == last {
                assert(mid.visited[q]);
            }
            assert(!mid.visited[q]);
            assert(mid.types[q] == st.types[q]);
            assert(nx.types[q] == mid.types[q]);
        }
        if !succs.contains(0) {
            assert(!succs.drop_last().contains(0)) by {
                if succs.drop_last().contains(0) {
                    let i = choose|i: int| 0 <= i < succs.drop_last().len() && succs.drop_last()[i] == 0;
                    assert(succs[i] == 0);
                }
            }
            assert(succs[succs.len() - 1] != 0);
            assert(mid.types[0] == st.types[0]);
            assert(nx.types[0] == mid.types[0]);
        }
    }
}

proof fn lemma_run_keeps(
    ops: Seq<OpCode>,
    constants: Seq<Value>,
    self_func_idx: u32,
    hints: Set<u8>,
    init: Seq<TypeTag>,
    k: nat,
)
    requires
        ops.len() > 0,
    ensures
        ({
            let run = type_run(ops, constants, self_func_idx, hints, init, k);
            &&& run.types.len() == ops.len()
            &&& run.visited.len() == ops.len()
            &&& no_edge_to_entry(ops) ==> run.types[0] == init
            &&& forall|q: int| 0 <= q < ops.len() && !#[trigger] run.visited[q] ==> run.types[q] == all_unknown()
        }),
    decreases k,
{
    let n = ops.len() as int;
    if k > 0 {
        lemma_run_keeps(ops, constants, self_func_idx, hints, init, (k - 1) as nat);
        let st = type_run(ops, constants, self_func_idx, hints, init, (k - 1) as nat);
        if st.queue.len() > 0 {
            let ip = st.queue[0];
            let (out, globals) = type_transfer(ops[ip], st.types[ip], st.globals, constants, self_func_idx, hints);
            let st2 = TypeRun { queue: st.queue.drop_first(), globals, uses_heap: st.uses_heap || has_heap_type(out), ..st };
            lemma_merge_all_keeps(st2, out, next_ips(ops[ip], ip), n);
            if no_edge_to_entry(ops) {
                assert(!next_ips(ops[ip], ip).contains(0)) by {
                    if next_ips(ops[ip], ip).contains(0) {
                        let j = choose|j: int| 0 <= j < next_ips(ops[ip], ip).len() && next_ips(ops[ip], ip)[j] == 0;
                        assert(0 <= ip < n) by {
                            lemma_type_run_flow(ops, constants, self_func_idx, hints, init, (k - 1) as nat);
                        }
                    }
                }
            }
        }
    } else {
        let st = type_start(n, init);
        assert forall|q: int| 0 <= q < n && !#[trigger] st.visited[q] implies st.types[q] == all_unknown() by {
            assert(st.types[q] =~= all_unknown());
        }
    }
}

/// Law: where no instruction passes control back to the entry, the entry
/// keeps exactly the types it was given.
pub proof fn law_entry_types_kept_without_back_edge(
    ops: Seq<OpCode>,
    constants: Seq<Value>,
    self_func_idx: u32,
    hints: Set<u8>,
    init: Seq<TypeTag>,
    k: nat,
)
    requires
        ops.len() > 0,
        no_edge_to_entry(ops),
    ensures
        type_run(ops, constants, self_func_idx, hints, init, k).types[0] == init,
{
    lemma_run_keeps(ops, constants, self_func_idx, hints, init, k);
}

/// Law: an instruction that the dataflow has not reached has every register
/// `Unknown`.
pub proof fn law_unvisited_types_unknown(
    ops: Seq<OpCode>,
    constants: Seq<Value>,
    self_func_idx: u32,
    hints: Set<u8>,
    init: Seq<TypeTag>,
    k: nat,
    ip: int,
)
    requires
        0 <= ip < ops.len(),
        !type_run(ops, constants, self_func_idx, hints, init, k).visited[ip],
    ensures
        type_run(ops, constants, self_func_idx, hints, init, k).types[ip] == all_unknown(),
{
    lemma_run_keeps(ops, constants, self_func_idx, hints, init, k);
}

} // verus!

verus! {

/// Law: the register type each instruction leaves: casts give their target type,
/// comparisons and negation a boolean, counters an integer, containers and
/// services the type of what they build, a move or numeric negation its
/// source's type; no other register and no global changes.
pub proof fn law_result_types_of_instructions_1(ts: Seq<TypeTag>, g: Map<u32, TypeTag>, d: u8, d2: u8, a: u8, b: u8, c: u8, i: u32, j: u32, cs: Seq<Value>, f: u32, h: Set<u8>)
    ensures
        type_transfer(OpCode::CastInt { dst: d, src: a }, ts, g, cs, f, h) == (ts.update(d as int, TypeTag::Int), g),
        type_transfer(OpCode::CastFloat { dst: d, src: a }, ts, g, cs, f, h) == (ts.update(d as int, TypeTag::Float), g),
        type_transfer(OpCode::CastString { dst: d, src: a }, ts, g, cs, f, h) == (ts.update(d as int, TypeTag::String), g),
        type_transfer(OpCode::CastBool { dst: d, src: a }, ts, g, cs, f, h) == (ts.update(d as int, TypeTag::Bool), g),
        type_transfer(OpCode::IncLocal { reg: d }, ts, g, cs, f, h) == (ts.update(d as int, TypeTag::Int), g),
        type_transfer(OpCode::DecLocal { reg: d }, ts, g, cs, f, h) == (ts.update(d as int, TypeTag::Int), g),
        type_transfer(OpCode::LoopNext { reg: d, limit_reg: a, target: i }, ts, g, cs, f, h) == (ts.update(d as int, TypeTag::Int), g),
        type_transfer(OpCode::LoopPrev { reg: d, limit_reg: a, target: i }, ts, g, cs, f, h) == (ts.update(d as int, TypeTag::Int), g),
        type_transfer(OpCode::IncVarLoopNext { g_idx: i, reg: d, limit_reg: a, target: j }, ts, g, cs, f, h) == (ts.update(d as int, TypeTag::Int), g),
        type_transfer(OpCode::DecVarLoopPrev { g_idx: i, reg: d, limit_reg: a, target: j }, ts, g, cs, f, h) == (ts.update(d as int, TypeTag::Int), g),
        type_transfer(OpCode::ArrayLoopNext { idx_reg: d, size_reg: a, target: i }, ts, g, cs, f, h) == (ts.update(d as int, TypeTag::Int), g),
        type_transfer(OpCode::TableIter { tbl_reg: a, idx_reg: d, row_reg: b, limit_reg: c, target: i }, ts, g, cs, f, h) == (ts.update(d as int, TypeTag::Int), g),
        type_transfer(OpCode::IncLocalLoopNext { inc_reg: d, reg: d2, limit_reg: a, target: i }, ts, g, cs, f, h) == (ts.update(d as int, TypeTag::Int).update(d2 as int, TypeTag::Int), g),
        type_transfer(OpCode::DecLocalLoopPrev { dec_reg: d, reg: d2, limit_reg: a, target: i }, ts, g, cs, f, h) == (ts.update(d as int, TypeTag::Int).update(d2 as int, TypeTag::Int), g),
        type_transfer(OpCode::Equal { dst: d, src1: a, src2: b }, ts, g, cs, f, h) == (ts.update(d as int, TypeTag::Bool), g),
        type_transfer(OpCode::NotEqual { dst: d, src1: a, src2: b }, ts, g, cs, f, h) == (ts.update(d as int, TypeTag::Bool), g),
        type_transfer(OpCode::Greater { dst: d, src1: a, src2: b }, ts, g, cs, f, h) == (ts.update(d as int, TypeTag::Bool), g),
        type_transfer(OpCode::Less { dst: d, src1: a, src2: b }, ts, g, cs, f, h) == (ts.update(d as int, TypeTag::Bool), g),
        type_transfer(OpCode::GreaterEqual { dst: d, src1: a, src2: b }, ts, g, cs, f, h) == (ts.update(d as int, TypeTag::Bool), g),
        type_transfer(OpCode::LessEqual { dst: d, src1: a, src2: b }, ts, g, cs, f, h) == (ts.update(d as int, TypeTag::Bool), g),
        type_transfer(OpCode::IntConcat { dst: d, src1: a, src2: b }, ts, g, cs, f, h) == (ts.update(d as int, TypeTag::Int), g),
        type_transfer(OpCode::Move { dst: d, src: d2 }, ts, g, cs, f, h) == (ts.update(d as int, ts[d2 as int]), g),
        type_transfer(OpCode::Neg { dst: d, src: d2 }, ts, g, cs, f, h) == (ts.update(d as int, ts[d2 as int]), g),
        type_transfer(OpCode::Not { dst: d, src: a }, ts, g, cs, f, h) == (ts.update(d as int, TypeTag::Bool), g),
{
}

/// Law: the register type each instruction leaves: casts give their target type,
/// comparisons and negation a boolean, counters an integer, containers and
/// services the type of what they build, a move or numeric negation its
/// source's type; no other register and no global changes.
pub proof fn law_result_types_of_instructions_2(ts: Seq<TypeTag>, g: Map<u32, TypeTag>, d: u8, a: u8, b: u8, c: u8, e: u8, i: u32, j: u32, m: u32, cs: Seq<Value>, f: u32, h: Set<u8>)
    ensures
        type_transfer(OpCode::DateNow { dst: d }, ts, g, cs, f, h) == (ts.update(d as int, TypeTag::Date), g),
        type_transfer(OpCode::PerfMs { dst: d }, ts, g, cs, f, h) == (ts.update(d as int, TypeTag::Int), g),
        type_transfer(OpCode::PerfUs { dst: d }, ts, g, cs, f, h) == (ts.update(d as int, TypeTag::Int), g),
        type_transfer(OpCode::PerfNs { dst: d }, ts, g, cs, f, h) == (ts.update(d as int, TypeTag::Int), g),
        type_transfer(OpCode::BoolArrayInit { dst: d }, ts, g, cs, f, h) == (ts.update(d as int, TypeTag::BoolArray), g),
        type_transfer(OpCode::SetInit { dst: d, base: a, count: i }, ts, g, cs, f, h) == (ts.update(d as int, TypeTag::SetTy), g),
        type_transfer(OpCode::SetRange { dst: d, start: a, end: b, step: c, has_step: e }, ts, g, cs, f, h) == (ts.update(d as int, TypeTag::SetTy), g),
        type_transfer(OpCode::SetUnion { dst: d, src1: a, src2: b }, ts, g, cs, f, h) == (ts.update(d as int, TypeTag::SetTy), g),
        type_transfer(OpCode::SetIntersection { dst: d, src1: a, src2: b }, ts, g, cs, f, h) == (ts.update(d as int, TypeTag::SetTy), g),
        type_transfer(OpCode::SetDifference { dst: d, src1: a, src2: b }, ts, g, cs, f, h) == (ts.update(d as int, TypeTag::SetTy), g),
        type_transfer(OpCode::SetSymDifference { dst: d, src1: a, src2: b }, ts, g, cs, f, h) == (ts.update(d as int, TypeTag::SetTy), g),
        type_transfer(OpCode::TableInit { dst: d, skeleton_idx: i, base: a, row_count: j, col_count: m }, ts, g, cs, f, h) == (ts.update(d as int, TypeTag::Table), g),
        type_transfer(OpCode::TableCloneSkeleton { dst: d, src: a }, ts, g, cs, f, h) == (ts.update(d as int, TypeTag::Table), g),
        type_transfer(OpCode::MapInit { dst: d, base: a, count: i }, ts, g, cs, f, h) == (ts.update(d as int, TypeTag::MapTy), g),
        type_transfer(OpCode::JsonParse { dst: d, src: a }, ts, g, cs, f, h) == (ts.update(d as int, TypeTag::Json), g),
        type_transfer(OpCode::Typeof { dst: d, src: a }, ts, g, cs, f, h) == (ts.update(d as int, TypeTag::String), g),
        type_transfer(OpCode::GetMember { dst: d, container: a, name_idx: i }, ts, g, cs, f, h) == (ts.update(d as int, TypeTag::Unknown), g),
        type_transfer(OpCode::MethodCallCustom { dst: d, method_name_idx: i, base: a, arg_count: b }, ts, g, cs, f, h) == (ts.update(d as int, TypeTag::Unknown), g),
        type_transfer(OpCode::RowGet { dst: d, row_reg: a, col_idx: i }, ts, g, cs, f, h) == (ts.update(d as int, TypeTag::Unknown), g),
        type_transfer(OpCode::YieldWithTarget { dst: d, src: a }, ts, g, cs, f, h) == (ts.update(d as int, TypeTag::Unknown), g),
        type_transfer(OpCode::HttpCall { dst: d, method_idx: i, url_src: a, body_src: b }, ts, g, cs, f, h) == (ts.update(d as int, TypeTag::Unknown), g),
        type_transfer(OpCode::HttpRequest { dst: d, arg_src: a }, ts, g, cs, f, h) == (ts.update(d as int, TypeTag::Unknown), g),
        type_transfer(OpCode::JsonBindLocal { dst: d, json_src: a, path_src: b }, ts, g, cs, f, h) == (ts.update(d as int, TypeTag::Unknown), g),
        type_transfer(OpCode::JsonInjectLocal { table_reg: d, json_src: a, mapping_src: b }, ts, g, cs, f, h) == (ts.update(d as int, TypeTag::Unknown), g),
{
}

/// Law: the register type each instruction leaves: casts give their target type,
/// comparisons and negation a boolean, counters an integer, containers and
/// services the type of what they build, a move or numeric negation its
/// source's type; no other register and no global changes.
pub proof fn law_result_types_of_instructions_3(ts: Seq<TypeTag>, g: Map<u32, TypeTag>, d: u8, a: u8, b: u8, c: u8, i: u32, cs: Seq<Value>, f: u32, h: Set<u8>)
    ensures
        type_transfer(OpCode::StoreRead { dst: d, base: a }, ts, g, cs, f, h) == (ts.update(d as int, TypeTag::Unknown), g),
        type_transfer(OpCode::FiberCreate { dst: d, func_idx: i, base: a, arg_count: b }, ts, g, cs, f, h) == (ts.update(d as int, TypeTag::Fiber), g),
        type_transfer(OpCode::EnvGet { dst: d, src: a }, ts, g, cs, f, h) == (ts.update(d as int, TypeTag::String), g),
        type_transfer(OpCode::CryptoHash { dst: d, pass_src: a, alg_src: b }, ts, g, cs, f, h) == (ts.update(d as int, TypeTag::String), g),
        type_transfer(OpCode::CryptoToken { dst: d, len_src: a }, ts, g, cs, f, h) == (ts.update(d as int, TypeTag::String), g),
        type_transfer(OpCode::EnvArgs { dst: d }, ts, g, cs, f, h) == (ts.update(d as int, TypeTag::Array), g),
        type_transfer(OpCode::StoreList { dst: d, base: a }, ts, g, cs, f, h) == (ts.update(d as int, TypeTag::Array), g),
        type_transfer(OpCode::StoreGlob { dst: d, base: a }, ts, g, cs, f, h) == (ts.update(d as int, TypeTag::Array), g),
        type_transfer(OpCode::CryptoVerify { dst: d, pass_src: a, hash_src: b, alg_src: c }, ts, g, cs, f, h) == (ts.update(d as int, TypeTag::Bool), g),
        type_transfer(OpCode::StoreExists { dst: d, base: a }, ts, g, cs, f, h) == (ts.update(d as int, TypeTag::Bool), g),
        type_transfer(OpCode::StoreIsDir { dst: d, base: a }, ts, g, cs, f, h) == (ts.update(d as int, TypeTag::Bool), g),
        type_transfer(OpCode::HttpRespond { dst: d, status_src: a, body_src: b, headers_src: c }, ts, g, cs, f, h) == (ts.update(d as int, TypeTag::Bool), g),
        type_transfer(OpCode::StoreSize { dst: d, base: a }, ts, g, cs, f, h) == (ts.update(d as int, TypeTag::Int), g),
{
}

/// Law: every other instruction leaves the register and global types as they are.
pub proof fn law_other_instructions_keep_types_1(ts: Seq<TypeTag>, g: Map<u32, TypeTag>, a: u8, b: u8, c: u8, i: u32, cs: Seq<Value>, f: u32, h: Set<u8>)
    ensures
        type_transfer(OpCode::And { dst: a, src1: b, src2: c }, ts, g, cs, f, h) == (ts, g),
        type_transfer(OpCode::Or { dst: a, src1: b, src2: c }, ts, g, cs, f, h) == (ts, g),
        type_transfer(OpCode::Has { dst: a, src1: b, src2: c }, ts, g, cs, f, h) == (ts, g),
        type_transfer(OpCode::Jump { target: i }, ts, g, cs, f, h) == (ts, g),
        type_transfer(OpCode::JumpIfFalse { src: a, target: i }, ts, g, cs, f, h) == (ts, g),
        type_transfer(OpCode::JumpIfTrue { src: a, target: i }, ts, g, cs, f, h) == (ts, g),
        type_transfer(OpCode::Return { src: a }, ts, g, cs, f, h) == (ts, g),
        type_transfer(OpCode::ReturnVoid, ts, g, cs, f, h) == (ts, g),
        type_transfer(OpCode::Halt, ts, g, cs, f, h) == (ts, g),
        type_transfer(OpCode::Wait { src: a }, ts, g, cs, f, h) == (ts, g),
        type_transfer(OpCode::Yield { src: a }, ts, g, cs, f, h) == (ts, g),
        type_transfer(OpCode::YieldVoid, ts, g, cs, f, h) == (ts, g),
        type_transfer(OpCode::HaltAlert { src: a }, ts, g, cs, f, h) == (ts, g),
        type_transfer(OpCode::HaltError { src: a }, ts, g, cs, f, h) == (ts, g),
        type_transfer(OpCode::HaltFatal { src: a }, ts, g, cs, f, h) == (ts, g),
        type_transfer(OpCode::Print { src: a }, ts, g, cs, f, h) == (ts, g),
        type_transfer(OpCode::Input { dst: a }, ts, g, cs, f, h) == (ts, g),
        type_transfer(OpCode::MakeClosure { dst: a, capture_start: b, capture_count: c }, ts, g, cs, f, h) == (ts, g),
        type_transfer(OpCode::TableBegin { dst: a }, ts, g, cs, f, h) == (ts, g),
        type_transfer(OpCode::TableInitRow { tbl_dst: a, base: b, col_count: i }, ts, g, cs, f, h) == (ts, g),
        type_transfer(OpCode::TablePushRow { tbl_reg: a, row_reg: b }, ts, g, cs, f, h) == (ts, g),
        type_transfer(OpCode::SetIndex { container: a, index: b, src: c }, ts, g, cs, f, h) == (ts, g),
        type_transfer(OpCode::SetMember { container: a, name_idx: i, src: b }, ts, g, cs, f, h) == (ts, g),
        type_transfer(OpCode::SetName { src: a }, ts, g, cs, f, h) == (ts, g),
{
}

/// Law: every other instruction leaves the register and global types as they are.
pub proof fn law_other_instructions_keep_types_2(ts: Seq<TypeTag>, g: Map<u32, TypeTag>, a: u8, b: u8, c: u8, e: u8, x: u8, i: u32, flag: bool, cs: Seq<Value>, f: u32, h: Set<u8>)
    ensures
        type_transfer(OpCode::StrAppendVar { var_idx: i, src: a }, ts, g, cs, f, h) == (ts, g),
        type_transfer(OpCode::StrAppendLocal { local_idx: a, src: b }, ts, g, cs, f, h) == (ts, g),
        type_transfer(OpCode::StrAppendElement { container: a, index: b, src: c }, ts, g, cs, f, h) == (ts, g),
        type_transfer(OpCode::StrAppendMember { container: a, name_idx: i, src: b }, ts, g, cs, f, h) == (ts, g),
        type_transfer(OpCode::RandomInt { dst: a, min: b, max: c, step: e, has_step: x }, ts, g, cs, f, h) == (ts, g),
        type_transfer(OpCode::RandomFloat { dst: a, min: b, max: c, step: e, has_step: x }, ts, g, cs, f, h) == (ts, g),
        type_transfer(OpCode::RandomChoice { dst: a, src: b }, ts, g, cs, f, h) == (ts, g),
        type_transfer(OpCode::JsonFastGetPush { json_src: a, path_src: b, val_src: c }, ts, g, cs, f, h) == (ts, g),
        type_transfer(OpCode::JsonBind { idx: i, json_src: a, path_src: b }, ts, g, cs, f, h) == (ts, g),
        type_transfer(OpCode::JsonInject { table_idx: i, json_src: a, mapping_src: b }, ts, g, cs, f, h) == (ts, g),
        type_transfer(OpCode::HttpServe { func_idx: i, port_src: a, host_src: b, workers_src: c, routes_src: e }, ts, g, cs, f, h) == (ts, g),
        type_transfer(OpCode::DatabaseInit { dst: a, engine_src: b, path_src: c, tables_base_reg: e, table_count: i }, ts, g, cs, f, h) == (ts, g),
        type_transfer(OpCode::StoreWrite { dst: a, base: b }, ts, g, cs, f, h) == (ts, g),
        type_transfer(OpCode::StoreAppend { dst: a, base: b }, ts, g, cs, f, h) == (ts, g),
        type_transfer(OpCode::StoreDelete { dst: a, base: b }, ts, g, cs, f, h) == (ts, g),
        type_transfer(OpCode::StoreMkdir { dst: a, base: b }, ts, g, cs, f, h) == (ts, g),
        type_transfer(OpCode::StoreZip { dst: a, base: b }, ts, g, cs, f, h) == (ts, g),
        type_transfer(OpCode::StoreUnzip { dst: a, base: b }, ts, g, cs, f, h) == (ts, g),
        type_transfer(OpCode::TerminalExit { dst: a }, ts, g, cs, f, h) == (ts, g),
        type_transfer(OpCode::TerminalRun { dst: a, cmd_src: b }, ts, g, cs, f, h) == (ts, g),
        type_transfer(OpCode::TerminalClear { dst: a }, ts, g, cs, f, h) == (ts, g),
        type_transfer(OpCode::TerminalRaw { dst: a }, ts, g, cs, f, h) == (ts, g),
        type_transfer(OpCode::TerminalNormal { dst: a }, ts, g, cs, f, h) == (ts, g),
        type_transfer(OpCode::TerminalCursor { dst: a, on: flag }, ts, g, cs, f, h) == (ts, g),
{
}

/// Law: every other instruction leaves the register and global types as they are.
pub proof fn law_other_instructions_keep_types_3(ts: Seq<TypeTag>, g: Map<u32, TypeTag>, a: u8, b: u8, c: u8, cs: Seq<Value>, f: u32, h: Set<u8>)
    ensures
        type_transfer(OpCode::TerminalMove { dst: a, x_src: b, y_src: c }, ts, g, cs, f, h) == (ts, g),
        type_transfer(OpCode::TerminalWrite { dst: a, src: b }, ts, g, cs, f, h) == (ts, g),
        type_transfer(OpCode::InputKey { dst: a }, ts, g, cs, f, h) == (ts, g),
        type_transfer(OpCode::InputKeyWait { dst: a }, ts, g, cs, f, h) == (ts, g),
        type_transfer(OpCode::InputReady { dst: a }, ts, g, cs, f, h) == (ts, g),
{
}

/// The register types after an instruction change at most in register `d`.
pub open spec fn only_changes(out: Seq<TypeTag>, ts: Seq<TypeTag>, d: u8) -> bool {
    out == ts.update(d as int, out[d as int])
}

/// Law: a product, quotient, remainder or power is an integer exactly when both
/// operands are; otherwise it is a float when either operand is one, and
/// unknown else. No other register and no global changes.
pub proof fn law_product_types(op_kind: u8, d: u8, a: u8, b: u8, ts: Seq<TypeTag>, g: Map<u32, TypeTag>, cs: Seq<Value>, f: u32, h: Set<u8>)
    requires
        ts.len() == 256,
        op_kind < 4,
    ensures
        ({
            let op = if op_kind == 0 {
                OpCode::Mul { dst: d, src1: a, src2: b }
            } else if op_kind == 1 {
                OpCode::Div { dst: d, src1: a, src2: b }
            } else if op_kind == 2 {
                OpCode::Mod { dst: d, src1: a, src2: b }
            } else {
                OpCode::Pow { dst: d, src1: a, src2: b }
            };
            let (out, g2) = type_transfer(op, ts, g, cs, f, h);
            &&& (ts[a as int] == TypeTag::Int && ts[b as int] == TypeTag::Int) ==> out[d as int] == TypeTag::Int
            &&& !(ts[a as int] == TypeTag::Int && ts[b as int] == TypeTag::Int) && (ts[a as int] == TypeTag::Float
                || ts[b as int] == TypeTag::Float) ==> out[d as int] == TypeTag::Float
            &&& !(ts[a as int] == TypeTag::Int && ts[b as int] == TypeTag::Int) && ts[a as int] != TypeTag::Float
                && ts[b as int] != TypeTag::Float ==> out[d as int] == TypeTag::Unknown
            &&& only_changes(out, ts, d)
            &&& g2 == g
        }),
{
}

/// Law: a sum is a date when it adds an integer to a date (either way round),
/// an integer when both operands are integers, else a float when either is a
/// float, else a string when either is a string, and unknown otherwise. No
/// other register and no global changes.
pub proof fn law_sum_types(d: u8, a: u8, b: u8, ts: Seq<TypeTag>, g: Map<u32, TypeTag>, cs: Seq<Value>, f: u32, h: Set<u8>)
    requires
        ts.len() == 256,
    ensures
        ({
            let (out, g2) = type_transfer(OpCode::Add { dst: d, src1: a, src2: b }, ts, g, cs, f, h);
            let t1 = ts[a as int];
            let t2 = ts[b as int];
            let dated = (t1 == TypeTag::Date && t2 == TypeTag::Int) || (t1 == TypeTag::Int && t2 == TypeTag::Date);
            let ints = t1 == TypeTag::Int && t2 == TypeTag::Int;
            let floats = t1 == TypeTag::Float || t2 == TypeTag::Float;
            let strings = t1 == TypeTag::String || t2 == TypeTag::String;
            &&& dated ==> out[d as int] == TypeTag::Date
            &&& ints ==> out[d as int] == TypeTag::Int
            &&& !dated && !ints && floats ==> out[d as int] == TypeTag::Float
            &&& !dated && !ints && !floats && strings ==> out[d as int] == TypeTag::String
            &&& !dated && !ints && !floats && !strings ==> out[d as int] == TypeTag::Unknown
            &&& only_changes(out, ts, d)
            &&& g2 == g
        }),
{
}

/// Law: a difference of a date and an integer is a date, of two dates an
/// integer, of two integers an integer; else a float when either operand is a
/// float, else a string when either is a string, and unknown otherwise. No
/// other register and no global changes.
pub proof fn law_difference_types(d: u8, a: u8, b: u8, ts: Seq<TypeTag>, g: Map<u32, TypeTag>, cs: Seq<Value>, f: u32, h: Set<u8>)
    requires
        ts.len() == 256,
    ensures
        ({
            let (out, g2) = type_transfer(OpCode::Sub { dst: d, src1: a, src2: b }, ts, g, cs, f, h);
            let t1 = ts[a as int];
            let t2 = ts[b as int];
            let dated = t1 == TypeTag::Date && (t2 == TypeTag::Int || t2 == TypeTag::Date);
            let ints = t1 == TypeTag::Int && t2 == TypeTag::Int;
            let floats = t1 == TypeTag::Float || t2 == TypeTag::Float;
            let strings = t1 == TypeTag::String || t2 == TypeTag::String;
            &&& t1 == TypeTag::Date && t2 == TypeTag::Int ==> out[d as int] == TypeTag::Date
            &&& t1 == TypeTag::Date && t2 == TypeTag::Date ==> out[d as int] == TypeTag::Int
            &&& ints ==> out[d as int] == TypeTag::Int
            &&& !dated && !ints && floats ==> out[d as int] == TypeTag::Float
            &&& !dated && !ints && !floats && strings ==> out[d as int] == TypeTag::String
            &&& !dated && !ints && !floats && !strings ==> out[d as int] == TypeTag::Unknown
            &&& only_changes(out, ts, d)
            &&& g2 == g
        }),
{
}

/// Law: a constant load gives its destination the type of the constant's kind
/// (unknown for other kinds), and leaves everything as it is when the constant
/// does not exist.
pub proof fn law_constant_load_types(d: u8, i: u32, ts: Seq<TypeTag>, g: Map<u32, TypeTag>, cs: Seq<Value>, f: u32, h: Set<u8>)
    requires
        ts.len() == 256,
    ensures
        (i as int) < cs.len() && cs[i as int].kind == ValueKind::Int ==> type_transfer(OpCode::LoadConst { dst: d, idx: i }, ts, g, cs, f, h).0[d as int] == TypeTag::Int,
        (i as int) < cs.len() && cs[i as int].kind == ValueKind::Float ==> type_transfer(OpCode::LoadConst { dst: d, idx: i }, ts, g, cs, f, h).0[d as int] == TypeTag::Float,
        (i as int) < cs.len() && cs[i as int].kind == ValueKind::Bool ==> type_transfer(OpCode::LoadConst { dst: d, idx: i }, ts, g, cs, f, h).0[d as int] == TypeTag::Bool,
        (i as int) < cs.len() && cs[i as int].kind == ValueKind::String ==> type_transfer(OpCode::LoadConst { dst: d, idx: i }, ts, g, cs, f, h).0[d as int] == TypeTag::String,
        (i as int) < cs.len() && cs[i as int].kind == ValueKind::Date ==> type_transfer(OpCode::LoadConst { dst: d, idx: i }, ts, g, cs, f, h).0[d as int] == TypeTag::Date,
        (i as int) < cs.len() && cs[i as int].kind == ValueKind::Array ==> type_transfer(OpCode::LoadConst { dst: d, idx: i }, ts, g, cs, f, h).0[d as int] == TypeTag::Array,
        (i as int) < cs.len() && cs[i as int].kind == ValueKind::BoolArray ==> type_transfer(OpCode::LoadConst { dst: d, idx: i }, ts, g, cs, f, h).0[d as int] == TypeTag::BoolArray,
        (i as int) < cs.len() && cs[i as int].kind == ValueKind::MapTy ==> type_transfer(OpCode::LoadConst { dst: d, idx: i }, ts, g, cs, f, h).0[d as int] == TypeTag::MapTy,
        (i as int) < cs.len() && cs[i as int].kind == ValueKind::SetTy ==> type_transfer(OpCode::LoadConst { dst: d, idx: i }, ts, g, cs, f, h).0[d as int] == TypeTag::SetTy,
        (i as int) < cs.len() && cs[i as int].kind == ValueKind::Table ==> type_transfer(OpCode::LoadConst { dst: d, idx: i }, ts, g, cs, f, h).0[d as int] == TypeTag::Table,
        (i as int) < cs.len() && cs[i as int].kind == ValueKind::Function ==> type_transfer(OpCode::LoadConst { dst: d, idx: i }, ts, g, cs, f, h).0[d as int] == TypeTag::Function,
        (i as int) < cs.len() && cs[i as int].kind == ValueKind::Row ==> type_transfer(OpCode::LoadConst { dst: d, idx: i }, ts, g, cs, f, h).0[d as int] == TypeTag::Row,
        (i as int) < cs.len() && cs[i as int].kind == ValueKind::Json ==> type_transfer(OpCode::LoadConst { dst: d, idx: i }, ts, g, cs, f, h).0[d as int] == TypeTag::Json,
        (i as int) < cs.len() && cs[i as int].kind == ValueKind::Fiber ==> type_transfer(OpCode::LoadConst { dst: d, idx: i }, ts, g, cs, f, h).0[d as int] == TypeTag::Fiber,
        (i as int) < cs.len() && cs[i as int].kind == ValueKind::Database ==> type_transfer(OpCode::LoadConst { dst: d, idx: i }, ts, g, cs, f, h).0[d as int] == TypeTag::Database,
        (i as int) < cs.len() && cs[i as int].kind == ValueKind::Other ==> type_transfer(OpCode::LoadConst { dst: d, idx: i }, ts, g, cs, f, h).0[d as int] == TypeTag::Unknown,
        only_changes(type_transfer(OpCode::LoadConst { dst: d, idx: i }, ts, g, cs, f, h).0, ts, d),
        (i as int) >= cs.len() ==> type_transfer(OpCode::LoadConst { dst: d, idx: i }, ts, g, cs, f, h) == (ts, g),
        type_transfer(OpCode::LoadConst { dst: d, idx: i }, ts, g, cs, f, h).1 == g,
{
    let out = type_transfer(OpCode::LoadConst { dst: d, idx: i }, ts, g, cs, f, h).0;
    assert(out =~= ts.update(d as int, out[d as int]));
}

/// Law: a global read gives its destination the type last stored to that
/// global (unknown if none); a store records the source's type for the global;
/// an increment or decrement records an integer.
pub proof fn law_global_types(d: u8, a: u8, i: u32, ts: Seq<TypeTag>, g: Map<u32, TypeTag>, cs: Seq<Value>, f: u32, h: Set<u8>)
    requires
        ts.len() == 256,
    ensures
        type_transfer(OpCode::GetVar { dst: d, idx: i }, ts, g, cs, f, h) == (ts.update(d as int, if g.contains_key(i) { g[i] } else { TypeTag::Unknown }), g),
        type_transfer(OpCode::SetVar { idx: i, src: a }, ts, g, cs, f, h) == (ts, g.insert(i, ts[a as int])),
        type_transfer(OpCode::IncVar { idx: i }, ts, g, cs, f, h) == (ts, g.insert(i, TypeTag::Int)),
        type_transfer(OpCode::DecVar { idx: i }, ts, g, cs, f, h) == (ts, g.insert(i, TypeTag::Int)),
{
}

/// Law: an element read is a boolean from a boolean array, a row from a table,
/// and unknown otherwise; an array built where the hints say it holds booleans
/// is a boolean array, else an array; a call of the function itself is an
/// integer when register 0 is one, and unknown otherwise.
pub proof fn law_element_array_and_call_types(d: u8, a: u8, b: u8, i: u32, n: u32, ts: Seq<TypeTag>, g: Map<u32, TypeTag>, cs: Seq<Value>, f: u32, h: Set<u8>)
    requires
        ts.len() == 256,
    ensures
        type_transfer(OpCode::GetIndex { dst: d, container: a, index: b }, ts, g, cs, f, h) == (ts.update(d as int, if ts[a as int] == TypeTag::BoolArray { TypeTag::Bool } else if ts[a as int] == TypeTag::Table { TypeTag::Row } else { TypeTag::Unknown }), g),
        type_transfer(OpCode::ArrayInit { dst: d, base: a, count: n }, ts, g, cs, f, h) == (ts.update(d as int, if h.contains(d) { TypeTag::BoolArray } else { TypeTag::Array }), g),
        type_transfer(OpCode::Call { dst: d, func_idx: i, base: a, arg_count: b }, ts, g, cs, f, h) == (ts.update(d as int, if i == f && ts[0] == TypeTag::Int { TypeTag::Int } else { TypeTag::Unknown }), g),
{
}

/// Law: a method call's result type follows its kind: lengths, sizes, counts
/// and searches are integers; push, set and update report a boolean; a get is
/// JSON from JSON and a boolean from a boolean array; the values of a set are
/// an array; where and join give a table; anything else is unknown.
pub proof fn law_method_result_types(d: u8, a: u8, b: u8, kind: MethodKind, ts: Seq<TypeTag>, g: Map<u32, TypeTag>, cs: Seq<Value>, f: u32, h: Set<u8>)
    requires
        ts.len() == 256,
    ensures
        ({
            let (out, g2) = type_transfer(OpCode::MethodCall { dst: d, kind, base: a, arg_count: b }, ts, g, cs, f, h);
            let base = ts[a as int];
            &&& (kind == MethodKind::Len || kind == MethodKind::Size || kind == MethodKind::Count || kind == MethodKind::Find) ==> out[d as int] == TypeTag::Int
            &&& (kind == MethodKind::Push || kind == MethodKind::SetItem || kind == MethodKind::Update) ==> out[d as int] == TypeTag::Bool
            &&& kind == MethodKind::Get && base == TypeTag::Json ==> out[d as int] == TypeTag::Json
            &&& kind == MethodKind::Get && base == TypeTag::BoolArray ==> out[d as int] == TypeTag::Bool
            &&& kind == MethodKind::Get && base != TypeTag::Json && base != TypeTag::BoolArray ==> out[d as int] == TypeTag::Unknown
            &&& kind == MethodKind::Values ==> out[d as int] == (if base == TypeTag::SetTy { TypeTag::Array } else { TypeTag::Unknown })
            &&& (kind == MethodKind::Where || kind == MethodKind::Join) ==> out[d as int] == TypeTag::Table
            &&& only_changes(out, ts, d)
            &&& g2 == g
            &&& type_transfer(OpCode::MethodCallNamed { dst: d, kind, base: a, arg_count: b, names_idx: 0 }, ts, g, cs, f, h) == (out, g2)
        }),
{
}

} // verus!
