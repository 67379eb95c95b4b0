//! The engine's operand table of Kismet instructions, written as the engine
//! declares it: each instruction's fields by their types, and each type's
//! encoding. The reader's layouts are proved to follow it.

use vstd::prelude::*;
use super::{FieldKind, token_layout, TOKEN_END_FUNCTION_PARMS};

verus! {

/// The type of an instruction's field in the engine's declaration.
pub enum FieldType {
    /// A property pointer.
    PropertyPointer,
    /// A code offset into the script.
    StatementIndex,
    /// An object (package) index.
    PackageIndex,
    /// A name: comparison index, display index and number.
    Name,
    I32,
    F32,
    U32,
    U16,
    U8,
    Bool,
    /// A primitive cast's conversion token.
    CastToken,
    /// Three floats.
    Vector,
    /// A rotation quaternion of four floats, then a translation and a scale vector.
    Transform,
    /// A nested expression.
    Expr,
    /// A text literal.
    Text,
    /// Expressions up to a terminator token, after a `u32` count when counted.
    List { counted: bool, terminator: u8 },
}

/// How a field of a type is encoded: its width in bytes, or its shape.
pub open spec fn field_kind(f: FieldType) -> FieldKind {
    match f {
        FieldType::PropertyPointer => FieldKind::Fixed(8),
        FieldType::StatementIndex => FieldKind::Fixed(4),
        FieldType::PackageIndex => FieldKind::Fixed(8),
        FieldType::Name => FieldKind::Fixed(12),
        FieldType::I32 => FieldKind::Fixed(4),
        FieldType::F32 => FieldKind::Fixed(4),
        FieldType::U32 => FieldKind::Fixed(4),
        FieldType::U16 => FieldKind::Fixed(2),
        FieldType::U8 => FieldKind::Fixed(1),
        FieldType::Bool => FieldKind::Fixed(1),
        FieldType::CastToken => FieldKind::Fixed(1),
        FieldType::Vector => FieldKind::Fixed(12),
        FieldType::Transform => FieldKind::Fixed(40),
        FieldType::Expr => FieldKind::Nested,
        FieldType::Text => FieldKind::Text,
        FieldType::List { counted, terminator } => FieldKind::List { counted, terminator },
    }
}

/// The engine's operand table: the encoding of each field of each instruction
/// that is read field by field, in the order the engine declares them; `None`
/// for the string constants and the switch, which have layouts of their own,
/// and for bytes that name no instruction.
pub open spec fn engine_layout(t: u8) -> Option<Seq<FieldKind>> {
    match t {
        0x00 => Some(seq![field_kind(FieldType::PropertyPointer)]), // ExLocalVariable
        0x01 => Some(seq![field_kind(FieldType::PropertyPointer)]), // ExInstanceVariable
        0x02 => Some(seq![field_kind(FieldType::PropertyPointer)]), // ExDefaultVariable
        0x04 => Some(seq![field_kind(FieldType::Expr)]), // ExReturn
        0x06 => Some(seq![field_kind(FieldType::StatementIndex)]), // ExJump
        0x07 => Some(seq![field_kind(FieldType::StatementIndex), field_kind(FieldType::Expr)]), // ExJumpIfNot
        0x09 => Some(seq![field_kind(FieldType::U16), field_kind(FieldType::Bool), field_kind(FieldType::Expr)]), // ExAssert
        0x0B => Some(seq![]), // ExNothing
        0x0F => Some(seq![field_kind(FieldType::PropertyPointer), field_kind(FieldType::Expr), field_kind(FieldType::Expr)]), // ExLet
        0x12 => Some(seq![field_kind(FieldType::Expr), field_kind(FieldType::StatementIndex), field_kind(FieldType::PropertyPointer), field_kind(FieldType::Expr)]), // ExClassContext
        0x13 => Some(seq![field_kind(FieldType::PackageIndex), field_kind(FieldType::Expr)]), // ExMetaCast
        0x14 => Some(seq![field_kind(FieldType::Expr), field_kind(FieldType::Expr)]), // ExLetBool
        0x15 => Some(seq![]), // ExEndParmValue
        0x16 => Some(seq![]), // ExEndFunctionParms
        0x17 => Some(seq![]), // ExSelf
        0x18 => Some(seq![field_kind(FieldType::StatementIndex), field_kind(FieldType::Expr)]), // ExSkip
        0x19 => Some(seq![field_kind(FieldType::Expr), field_kind(FieldType::StatementIndex), field_kind(FieldType::PropertyPointer), field_kind(FieldType::Expr)]), // ExContext
        0x1A => Some(seq![field_kind(FieldType::Expr), field_kind(FieldType::StatementIndex), field_kind(FieldType::PropertyPointer), field_kind(FieldType::Expr)]), // ExContextFailSilent
        0x1B => Some(seq![field_kind(FieldType::Name), field_kind(FieldType::List { counted: false, terminator: TOKEN_END_FUNCTION_PARMS })]), // ExVirtualFunction
        0x1C => Some(seq![field_kind(FieldType::PackageIndex), field_kind(FieldType::List { counted: false, terminator: TOKEN_END_FUNCTION_PARMS })]), // ExFinalFunction
        0x1D => Some(seq![field_kind(FieldType::I32)]), // ExIntConst
        0x1E => Some(seq![field_kind(FieldType::F32)]), // ExFloatConst
        0x20 => Some(seq![field_kind(FieldType::PackageIndex)]), // ExObjectConst
        0x21 => Some(seq![field_kind(FieldType::Name)]), // ExNameConst
        0x22 => Some(seq![field_kind(FieldType::Vector)]), // ExRotationConst
        0x23 => Some(seq![field_kind(FieldType::Vector)]), // ExVectorConst
        0x24 => Some(seq![field_kind(FieldType::U8)]), // ExByteConst
        0x25 => Some(seq![]), // ExIntZero
        0x26 => Some(seq![]), // ExIntOne
        0x27 => Some(seq![]), // ExTrue
        0x28 => Some(seq![]), // ExFalse
        0x29 => Some(seq![field_kind(FieldType::Text)]), // ExTextConst
        0x2A => Some(seq![]), // ExNoObject
        0x2B => Some(seq![field_kind(FieldType::Transform)]), // ExTransformConst
        0x2C => Some(seq![]), // ExIntConstByte
        0x2D => Some(seq![]), // ExNoInterface
        0x2E => Some(seq![field_kind(FieldType::PackageIndex), field_kind(FieldType::Expr)]), // ExDynamicCast
        0x2F => Some(seq![field_kind(FieldType::PackageIndex), field_kind(FieldType::I32), field_kind(FieldType::List { counted: false, terminator: 0x30 })]), // ExStructConst
        0x30 => Some(seq![]), // ExEndStructConst
        0x31 => Some(seq![field_kind(FieldType::Expr), field_kind(FieldType::List { counted: false, terminator: 0x32 })]), // ExSetArray
        0x32 => Some(seq![]), // ExEndArray
        0x33 => Some(seq![field_kind(FieldType::PropertyPointer)]), // ExPropertyConst
        0x35 => Some(seq![]), // ExInt64Const
        0x36 => Some(seq![]), // ExUInt64Const
        0x38 => Some(seq![field_kind(FieldType::CastToken), field_kind(FieldType::Expr)]), // ExPrimitiveCast
        0x39 => Some(seq![field_kind(FieldType::Expr), field_kind(FieldType::List { counted: true, terminator: 0x3A })]), // ExSetSet
        0x3A => Some(seq![]), // ExEndSet
        0x3B => Some(seq![field_kind(FieldType::Expr), field_kind(FieldType::List { counted: true, terminator: 0x3C })]), // ExSetMap
        0x3C => Some(seq![]), // ExEndMap
        0x3D => Some(seq![field_kind(FieldType::PropertyPointer), field_kind(FieldType::List { counted: true, terminator: TOKEN_END_FUNCTION_PARMS })]), // ExSetConst
        0x3E => Some(seq![]), // ExEndSetConst
        0x3F => Some(seq![field_kind(FieldType::PropertyPointer), field_kind(FieldType::PropertyPointer), field_kind(FieldType::List { counted: true, terminator: 0x40 })]), // ExMapConst
        0x40 => Some(seq![]), // ExEndMapConst
        0x42 => Some(seq![field_kind(FieldType::PropertyPointer), field_kind(FieldType::Expr)]), // ExStructMemberContext
        0x43 => Some(seq![field_kind(FieldType::Expr), field_kind(FieldType::Expr)]), // ExLetMulticastDelegate
        0x44 => Some(seq![field_kind(FieldType::Expr), field_kind(FieldType::Expr)]), // ExLetDelegate
        0x45 => Some(seq![field_kind(FieldType::Name), field_kind(FieldType::List { counted: false, terminator: TOKEN_END_FUNCTION_PARMS })]), // ExLocalVirtualFunction
        0x46 => Some(seq![field_kind(FieldType::PackageIndex), field_kind(FieldType::List { counted: false, terminator: TOKEN_END_FUNCTION_PARMS })]), // ExLocalFinalFunction
        0x48 => Some(seq![field_kind(FieldType::PropertyPointer)]), // ExLocalOutVariable
        0x4A => Some(seq![]), // ExDeprecatedOp4A
        0x4B => Some(seq![field_kind(FieldType::Name)]), // ExInstanceDelegate
        0x4C => Some(seq![field_kind(FieldType::StatementIndex)]), // ExPushExecutionFlow
        0x4D => Some(seq![]), // ExPopExecutionFlow
        0x4E => Some(seq![field_kind(FieldType::Expr)]), // ExComputedJump
        0x4F => Some(seq![field_kind(FieldType::Expr)]), // ExPopExecutionFlowIfNot
        0x50 => Some(seq![]), // ExBreakpoint
        0x51 => Some(seq![field_kind(FieldType::Expr)]), // ExInterfaceContext
        0x52 => Some(seq![field_kind(FieldType::PackageIndex), field_kind(FieldType::Expr)]), // ExObjToInterfaceCast
        0x53 => Some(seq![]), // ExEndOfScript
        0x54 => Some(seq![field_kind(FieldType::PackageIndex), field_kind(FieldType::Expr)]), // ExCrossInterfaceCast
        0x55 => Some(seq![field_kind(FieldType::PackageIndex), field_kind(FieldType::Expr)]), // ExInterfaceToObjCast
        0x5A => Some(seq![]), // ExWireTracepoint
        0x5B => Some(seq![field_kind(FieldType::U32)]), // ExSkipOffsetConst
        0x5C => Some(seq![field_kind(FieldType::Expr), field_kind(FieldType::Expr)]), // ExAddMulticastDelegate
        0x5D => Some(seq![field_kind(FieldType::Expr)]), // ExClearMulticastDelegate
        0x5E => Some(seq![]), // ExTracepoint
        0x5F => Some(seq![field_kind(FieldType::Expr), field_kind(FieldType::Expr)]), // ExLetObj
        0x60 => Some(seq![field_kind(FieldType::Expr), field_kind(FieldType::Expr)]), // ExLetWeakObjPtr
        0x61 => Some(seq![field_kind(FieldType::Name), field_kind(FieldType::Expr), field_kind(FieldType::Expr)]), // ExBindDelegate
        0x62 => Some(seq![field_kind(FieldType::Expr), field_kind(FieldType::Expr)]), // ExRemoveMulticastDelegate
        0x63 => Some(seq![field_kind(FieldType::PackageIndex), field_kind(FieldType::List { counted: false, terminator: TOKEN_END_FUNCTION_PARMS }), field_kind(FieldType::Expr)]), // ExCallMulticastDelegate
        0x64 => Some(seq![field_kind(FieldType::PropertyPointer), field_kind(FieldType::Expr)]), // ExLetValueOnPersistentFrame
        0x65 => Some(seq![field_kind(FieldType::PropertyPointer), field_kind(FieldType::List { counted: true, terminator: 0x66 })]), // ExArrayConst
        0x66 => Some(seq![]), // ExEndArrayConst
        0x67 => Some(seq![field_kind(FieldType::Expr)]), // ExSoftObjectConst
        0x68 => Some(seq![field_kind(FieldType::PackageIndex), field_kind(FieldType::List { counted: false, terminator: TOKEN_END_FUNCTION_PARMS })]), // ExCallMath
        0x6B => Some(seq![field_kind(FieldType::Expr), field_kind(FieldType::Expr)]), // ExArrayGetByRef
        0x6C => Some(seq![field_kind(FieldType::PropertyPointer)]), // ExClassSparseDataVariable
        0x6D => Some(seq![field_kind(FieldType::Expr)]), // ExFieldPathConst
        _ => None,
    }
}

/// Every token's field layout, as the reader uses it, is the engine's operand
/// table.
pub proof fn lemma_layout_is_engine_table(t: u8)
    ensures
        token_layout(t) == engine_layout(t),
{
}

} // verus!
