//! Reader for Unreal Engine Kismet bytecode, the instruction stream of a
//! blueprint function.
//!
//! A script is a sequence of expressions. Each expression starts with a token
//! byte; the token decides the fields that follow: fixed-width values (property
//! and object pointers, names, numbers), nested expressions, text literals, and
//! lists of expressions closed by a terminator token. Fixed-width values are
//! kept as the raw little-endian bytes of the script, so an expression always
//! serializes back to exactly the bytes it was read from, and (see [`unique`])
//! those bytes determine it.

use vstd::prelude::*;
use crate::wire::{le_bytes, le_value, field, read_bytes, read_u16, read_u32, read_u64, lemma_le_bytes_of_value};

pub mod unique;
pub mod disassembly;
pub mod operands;

verus! {

/// How one field of an instruction is laid out in the bytecode.
#[derive(Clone, Copy, Debug, PartialEq, Eq, Structural)]
pub enum FieldKind {
    /// A fixed number of raw bytes (a property or object pointer, a name, a number).
    Fixed(u8),
    /// One nested expression.
    Nested,
    /// A text literal: a tag byte and the parts that the tag announces.
    Text,
    /// Expressions up to one with the terminator token, after a `u32` count where `counted`.
    List { counted: bool, terminator: u8 },
}

/// Errors met while reading bytecode.
#[derive(Clone, Copy, Debug, PartialEq, Eq, Structural)]
pub enum KismetError {
    /// The script ended inside an expression.
    UnexpectedEof,
    /// A byte in token position that names no instruction.
    UnknownToken(u8),
    /// A text literal with a tag that names no kind of text.
    UnknownTextKind(u8),
}

/// `EX_StringConst`: a NUL-terminated narrow string.
pub const TOKEN_STRING_CONST: u8 = 0x1F;
/// `EX_UnicodeStringConst`: a NUL-terminated string of 16-bit units.
pub const TOKEN_UNICODE_STRING_CONST: u8 = 0x34;
/// `EX_SwitchValue`: a switch over cases, each with its own value and term.
pub const TOKEN_SWITCH_VALUE: u8 = 0x69;
/// `EX_EndFunctionParms`: closes the parameters of a call.
pub const TOKEN_END_FUNCTION_PARMS: u8 = 0x16;

/// The field layout of every token that is read field by field; `None` for the
/// tokens with a layout of their own (strings, switches) and for unknown bytes.
pub open spec fn token_layout(t: u8) -> Option<Seq<FieldKind>> {
    let p = FieldKind::Fixed(8);
    let o = FieldKind::Fixed(8);
    let s = FieldKind::Fixed(4);
    let n = FieldKind::Fixed(12);
    let e = FieldKind::Nested;
    match t {
        0x0B | 0x15 | 0x16 | 0x17 | 0x25 | 0x26 | 0x27 | 0x28 | 0x2A | 0x2C | 0x2D | 0x30 | 0x32
        | 0x35 | 0x36 | 0x3A | 0x3C | 0x3E | 0x40 | 0x4A | 0x4D | 0x50 | 0x53 | 0x5A | 0x5E
        | 0x66 => Some(seq![]),
        0x00 | 0x01 | 0x02 | 0x33 | 0x48 | 0x6C => Some(seq![p]),
        0x04 | 0x4E | 0x4F | 0x51 | 0x5D | 0x67 | 0x6D => Some(seq![e]),
        0x06 | 0x4C => Some(seq![s]),
        0x07 | 0x18 => Some(seq![s, e]),
        0x09 => Some(seq![FieldKind::Fixed(2), FieldKind::Fixed(1), e]),
        0x0F => Some(seq![p, e, e]),
        0x12 | 0x19 | 0x1A => Some(seq![e, s, p, e]),
        0x13 | 0x2E | 0x52 | 0x54 | 0x55 => Some(seq![o, e]),
        0x14 | 0x43 | 0x44 | 0x5C | 0x5F | 0x60 | 0x62 | 0x6B => Some(seq![e, e]),
        0x1B | 0x45 => Some(seq![n, FieldKind::List { counted: false, terminator: 0x16 }]),
        0x1C | 0x46 | 0x68 => Some(seq![o, FieldKind::List { counted: false, terminator: 0x16 }]),
        0x1D | 0x1E | 0x5B => Some(seq![FieldKind::Fixed(4)]),
        0x20 => Some(seq![o]),
        0x21 | 0x4B => Some(seq![n]),
        0x22 | 0x23 => Some(seq![FieldKind::Fixed(12)]),
        0x24 => Some(seq![FieldKind::Fixed(1)]),
        0x29 => Some(seq![FieldKind::Text]),
        0x2B => Some(seq![FieldKind::Fixed(40)]),
        0x2F => Some(seq![o, FieldKind::Fixed(4), FieldKind::List { counted: false, terminator: 0x30 }]),
        0x31 => Some(seq![e, FieldKind::List { counted: false, terminator: 0x32 }]),
        0x38 => Some(seq![FieldKind::Fixed(1), e]),
        0x39 => Some(seq![e, FieldKind::List { counted: true, terminator: 0x3A }]),
        0x3B => Some(seq![e, FieldKind::List { counted: true, terminator: 0x3C }]),
        0x3D => Some(seq![p, FieldKind::List { counted: true, terminator: 0x16 }]),
        0x3F => Some(seq![p, p, FieldKind::List { counted: true, terminator: 0x40 }]),
        0x42 | 0x64 => Some(seq![p, e]),
        0x61 => Some(seq![n, e, e]),
        0x63 => Some(seq![o, FieldKind::List { counted: false, terminator: 0x16 }, e]),
        0x65 => Some(seq![p, FieldKind::List { counted: true, terminator: 0x66 }]),
        _ => None,
    }
}

/// The field layout of token `t`, as `token_layout` gives it.
pub fn layout_of(t: u8) -> (r: Option<Vec<FieldKind>>)
    ensures
        match token_layout(t) {
            Some(kinds) => r matches Some(v) && v@ == kinds,
            None => r is None,
        },
{
    let p = FieldKind::Fixed(8);
    let o = FieldKind::Fixed(8);
    let s = FieldKind::Fixed(4);
    let n = FieldKind::Fixed(12);
    let e = FieldKind::Nested;
    let r = match t {
        0x0B | 0x15 | 0x16 | 0x17 | 0x25 | 0x26 | 0x27 | 0x28 | 0x2A | 0x2C | 0x2D | 0x30 | 0x32
        | 0x35 | 0x36 | 0x3A | 0x3C | 0x3E | 0x40 | 0x4A | 0x4D | 0x50 | 0x53 | 0x5A | 0x5E
        | 0x66 => Some(vec![]),
        0x00 | 0x01 | 0x02 | 0x33 | 0x48 | 0x6C => Some(vec![p]),
        0x04 | 0x4E | 0x4F | 0x51 | 0x5D | 0x67 | 0x6D => Some(vec![e]),
        0x06 | 0x4C => Some(vec![s]),
        0x07 | 0x18 => Some(vec![s, e]),
        0x09 => Some(vec![FieldKind::Fixed(2), FieldKind::Fixed(1), e]),
        0x0F => Some(vec![p, e, e]),
        0x12 | 0x19 | 0x1A => Some(vec![e, s, p, e]),
        0x13 | 0x2E | 0x52 | 0x54 | 0x55 => Some(vec![o, e]),
        0x14 | 0x43 | 0x44 | 0x5C | 0x5F | 0x60 | 0x62 | 0x6B => Some(vec![e, e]),
        0x1B | 0x45 => Some(vec![n, FieldKind::List { counted: false, terminator: 0x16 }]),
        0x1C | 0x46 | 0x68 => Some(vec![o, FieldKind::List { counted: false, terminator: 0x16 }]),
        0x1D | 0x1E | 0x5B => Some(vec![FieldKind::Fixed(4)]),
        0x20 => Some(vec![o]),
        0x21 | 0x4B => Some(vec![n]),
        0x22 | 0x23 => Some(vec![FieldKind::Fixed(12)]),
        0x24 => Some(vec![FieldKind::Fixed(1)]),
        0x29 => Some(vec![FieldKind::Text]),
        0x2B => Some(vec![FieldKind::Fixed(40)]),
        0x2F => Some(vec![o, FieldKind::Fixed(4), FieldKind::List { counted: false, terminator: 0x30 }]),
        0x31 => Some(vec![e, FieldKind::List { counted: false, terminator: 0x32 }]),
        0x38 => Some(vec![FieldKind::Fixed(1), e]),
        0x39 => Some(vec![e, FieldKind::List { counted: true, terminator: 0x3A }]),
        0x3B => Some(vec![e, FieldKind::List { counted: true, terminator: 0x3C }]),
        0x3D => Some(vec![p, FieldKind::List { counted: true, terminator: 0x16 }]),
        0x3F => Some(vec![p, p, FieldKind::List { counted: true, terminator: 0x40 }]),
        0x42 | 0x64 => Some(vec![p, e]),
        0x61 => Some(vec![n, e, e]),
        0x63 => Some(vec![o, FieldKind::List { counted: false, terminator: 0x16 }, e]),
        0x65 => Some(vec![p, FieldKind::List { counted: true, terminator: 0x66 }]),
        _ => None,
    };
    proof {
        if r is Some {
            assert(r->0@ =~= token_layout(t)->0);
        }
    }
    r
}

/// One expression of a script.
#[derive(Debug)]
pub enum Expr {
    /// An instruction read field by field: its token and one operand per field.
    Node { token: u8, operands: Vec<Operand> },
    /// `EX_StringConst`: the bytes of the string, without its NUL.
    StringConst { chars: Vec<u8> },
    /// `EX_UnicodeStringConst`: the 16-bit units of the string, without its NUL.
    UnicodeStringConst { units: Vec<u16> },
    /// `EX_SwitchValue`.
    SwitchValue {
        end_goto_offset: u32,
        index_term: Box<Expr>,
        cases: Vec<SwitchCase>,
        default_term: Box<Expr>,
    },
}

/// One case of an `EX_SwitchValue`.
#[derive(Debug)]
pub struct SwitchCase {
    pub value: Expr,
    pub next_offset: u32,
    pub term: Expr,
}

/// The value of one field of an instruction.
#[derive(Debug)]
pub enum Operand {
    /// The raw bytes of a fixed-width field.
    Fixed { bytes: Vec<u8> },
    /// A nested expression.
    Nested { expr: Box<Expr> },
    /// A text literal.
    Text { text: Box<ScriptText> },
    /// A list of expressions; `count` is the announced count of a counted list.
    List { count: Option<u32>, items: Vec<Expr>, terminator: u8 },
}

/// A text literal (`FScriptText`).
#[derive(Debug)]
pub enum ScriptText {
    Empty,
    LocalizedText { source: Expr, key: Expr, namespace: Expr },
    InvariantText { literal: Expr },
    LiteralString { literal: Expr },
    StringTableEntry { table: u64 },
}

/// The token byte that an expression starts with.
pub open spec fn expr_token(e: Expr) -> u8 {
    match e {
        Expr::Node { token, .. } => token,
        Expr::StringConst { .. } => TOKEN_STRING_CONST,
        Expr::UnicodeStringConst { .. } => TOKEN_UNICODE_STRING_CONST,
        Expr::SwitchValue { .. } => TOKEN_SWITCH_VALUE,
    }
}

/// The little-endian bytes of a sequence of 16-bit units.
pub open spec fn ser_units(s: Seq<u16>) -> Seq<u8>
    decreases s.len(),
{
    if s.len() == 0 {
        Seq::empty()
    } else {
        ser_units(s.subrange(0, s.len() - 1)) + le_bytes(s[s.len() - 1] as nat, 2)
    }
}

/// The bytecode of an expression.
pub open spec fn ser_expr(e: Expr) -> Seq<u8>
    decreases e,
{
    match e {
        Expr::Node { token, operands } => seq![token] + ser_operands(operands@),
        Expr::StringConst { chars } => seq![TOKEN_STRING_CONST] + chars@ + seq![0u8],
        Expr::UnicodeStringConst { units } => seq![TOKEN_UNICODE_STRING_CONST] + ser_units(units@)
            + seq![0u8, 0u8],
        Expr::SwitchValue { end_goto_offset, index_term, cases, default_term } => seq![
            TOKEN_SWITCH_VALUE,
        ] + le_bytes(cases@.len(), 2) + le_bytes(end_goto_offset as nat, 4) + ser_expr(*index_term)
            + ser_cases(cases@) + ser_expr(*default_term),
    }
}

/// The `u32` count in front of a counted list; nothing for an uncounted one.
pub open spec fn count_bytes(count: Option<u32>) -> Seq<u8> {
    match count {
        Some(c) => le_bytes(c as nat, 4),
        None => Seq::empty(),
    }
}

/// The bytecode of a sequence of operands, one after the other.
pub open spec fn ser_operands(s: Seq<Operand>) -> Seq<u8>
    decreases s,
{
    if s.len() == 0 {
        Seq::empty()
    } else {
        ser_operands(s.subrange(0, s.len() - 1)) + ser_operand(s[s.len() - 1])
    }
}

/// The bytecode of one operand.
pub open spec fn ser_operand(o: Operand) -> Seq<u8>
    decreases o,
{
    match o {
        Operand::Fixed { bytes } => bytes@,
        Operand::Nested { expr } => ser_expr(*expr),
        Operand::Text { text } => ser_text(*text),
        Operand::List { count, items, terminator } => count_bytes(count) + ser_exprs(items@)
            + seq![terminator],
    }
}

/// The bytecode of a sequence of expressions, one after the other.
pub open spec fn ser_exprs(s: Seq<Expr>) -> Seq<u8>
    decreases s,
{
    if s.len() == 0 {
        Seq::empty()
    } else {
        ser_exprs(s.subrange(0, s.len() - 1)) + ser_expr(s[s.len() - 1])
    }
}

/// The bytecode of a text literal.
pub open spec fn ser_text(t: ScriptText) -> Seq<u8>
    decreases t,
{
    match t {
        ScriptText::Empty => seq![0u8],
        ScriptText::LocalizedText { source, key, namespace } => seq![1u8] + ser_expr(source)
            + ser_expr(key) + ser_expr(namespace),
        ScriptText::InvariantText { literal } => seq![2u8] + ser_expr(literal),
        ScriptText::LiteralString { literal } => seq![3u8] + ser_expr(literal),
        ScriptText::StringTableEntry { table } => seq![4u8] + le_bytes(table as nat, 8),
    }
}

/// The bytecode of the cases of a switch, one after the other.
pub open spec fn ser_cases(s: Seq<SwitchCase>) -> Seq<u8>
    decreases s,
{
    if s.len() == 0 {
        Seq::empty()
    } else {
        ser_cases(s.subrange(0, s.len() - 1)) + ser_case(s[s.len() - 1])
    }
}

/// The bytecode of one switch case.
pub open spec fn ser_case(c: SwitchCase) -> Seq<u8>
    decreases c,
{
    ser_expr(c.value) + le_bytes(c.next_offset as nat, 4) + ser_expr(c.term)
}

/// An expression as the reader builds it: every instruction has one operand of
/// the right shape per field of its token's layout, strings hold no NUL, a
/// switch has at most `u16::MAX` cases, and no item of a list has the list's
/// terminator token.
pub open spec fn wf_expr(e: Expr) -> bool
    decreases e,
{
    match e {
        Expr::Node { token, operands } => match token_layout(token) {
            Some(kinds) => operands@.len() == kinds.len() && wf_operands(operands@, kinds),
            None => false,
        },
        Expr::StringConst { chars } => forall|i: int| 0 <= i < chars@.len() ==> chars@[i] != 0,
        Expr::UnicodeStringConst { units } => forall|i: int|
            0 <= i < units@.len() ==> units@[i] != 0,
        Expr::SwitchValue { index_term, cases, default_term, .. } => cases@.len() <= 0xffff
            && wf_expr(*index_term) && wf_cases(cases@) && wf_expr(*default_term),
    }
}

/// Each operand of `s` fits the field of `kinds` at its position.
pub open spec fn wf_operands(s: Seq<Operand>, kinds: Seq<FieldKind>) -> bool
    decreases s,
{
    if s.len() == 0 {
        true
    } else {
        wf_operands(s.subrange(0, s.len() - 1), kinds) && wf_operand(s[s.len() - 1], kinds[s.len() - 1])
    }
}

/// Operand `o` has the shape of a field of kind `k`.
pub open spec fn wf_operand(o: Operand, k: FieldKind) -> bool
    decreases o,
{
    match o {
        Operand::Fixed { bytes } => k matches FieldKind::Fixed(n) && bytes@.len() == n,
        Operand::Nested { expr } => k == FieldKind::Nested && wf_expr(*expr),
        Operand::Text { text } => k == FieldKind::Text && wf_text(*text),
        Operand::List { count, items, terminator } => k == (FieldKind::List {
            counted: count is Some,
            terminator,
        }) && wf_items(items@, terminator),
    }
}

/// The items of a list closed by `terminator`.
pub open spec fn wf_items(s: Seq<Expr>, terminator: u8) -> bool
    decreases s,
{
    if s.len() == 0 {
        true
    } else {
        wf_items(s.subrange(0, s.len() - 1), terminator) && wf_expr(s[s.len() - 1])
            && expr_token(s[s.len() - 1]) != terminator
    }
}

/// A text literal as the reader builds it.
pub open spec fn wf_text(t: ScriptText) -> bool
    decreases t,
{
    match t {
        ScriptText::LocalizedText { source, key, namespace } => wf_expr(source) && wf_expr(key)
            && wf_expr(namespace),
        ScriptText::InvariantText { literal } => wf_expr(literal),
        ScriptText::LiteralString { literal } => wf_expr(literal),
        _ => true,
    }
}

/// The cases of a switch as the reader builds them.
pub open spec fn wf_cases(s: Seq<SwitchCase>) -> bool
    decreases s,
{
    if s.len() == 0 {
        true
    } else {
        wf_cases(s.subrange(0, s.len() - 1)) && wf_expr(s[s.len() - 1].value) && wf_expr(
            s[s.len() - 1].term,
        )
    }
}

/// Where reading a NUL-terminated narrow string at `q` ends.
pub open spec fn scan_narrow(b: Seq<u8>, q: int) -> Result<int, KismetError>
    decreases b.len() - q,
{
    if q < 0 || q >= b.len() {
        Err(KismetError::UnexpectedEof)
    } else if b[q] == 0 {
        Ok(q + 1)
    } else {
        scan_narrow(b, q + 1)
    }
}

/// Where reading a string of 16-bit units, closed by a zero unit, at `q` ends.
pub open spec fn scan_wide(b: Seq<u8>, q: int) -> Result<int, KismetError>
    decreases b.len() - q,
{
    if q < 0 || q + 2 > b.len() {
        Err(KismetError::UnexpectedEof)
    } else if b[q] == 0 && b[q + 1] == 0 {
        Ok(q + 2)
    } else {
        scan_wide(b, q + 2)
    }
}

/// Where reading one expression at `p` ends, or the error that stops it.
pub open spec fn scan_expr(b: Seq<u8>, p: int) -> Result<int, KismetError>
    decreases b.len() - p, 0int, 0int,
{
    if p < 0 || p >= b.len() {
        Err(KismetError::UnexpectedEof)
    } else {
        let t = b[p];
        if t == TOKEN_STRING_CONST {
            scan_narrow(b, p + 1)
        } else if t == TOKEN_UNICODE_STRING_CONST {
            scan_wide(b, p + 1)
        } else if t == TOKEN_SWITCH_VALUE {
            scan_switch(b, p + 1)
        } else {
            match token_layout(t) {
                Some(kinds) => scan_fields(b, p + 1, kinds, 0),
                None => Err(KismetError::UnknownToken(t)),
            }
        }
    }
}

/// Where reading the fields `kinds[i..]` at `q` ends.
pub open spec fn scan_fields(b: Seq<u8>, q: int, kinds: Seq<FieldKind>, i: int) -> Result<
    int,
    KismetError,
>
    decreases b.len() - q, 3int, kinds.len() - i,
{
    if i < 0 || i >= kinds.len() {
        Ok(q)
    } else {
        match scan_field(b, q, kinds[i]) {
            Ok(q2) => if q <= q2 <= b.len() {
                scan_fields(b, q2, kinds, i + 1)
            } else {
                Err(KismetError::UnexpectedEof)
            },
            Err(e) => Err(e),
        }
    }
}

/// Where reading one field of kind `k` at `q` ends.
pub open spec fn scan_field(b: Seq<u8>, q: int, k: FieldKind) -> Result<int, KismetError>
    decreases b.len() - q, 2int, 0int,
{
    match k {
        FieldKind::Fixed(n) => if 0 <= q && q + n <= b.len() {
            Ok(q + n)
        } else {
            Err(KismetError::UnexpectedEof)
        },
        FieldKind::Nested => scan_expr(b, q),
        FieldKind::Text => scan_text(b, q),
        FieldKind::List { counted, terminator } => if !counted {
            scan_list(b, q, terminator)
        } else if 0 <= q && q + 4 <= b.len() {
            scan_list(b, q + 4, terminator)
        } else {
            Err(KismetError::UnexpectedEof)
        },
    }
}

/// Where reading a text literal at `q` ends.
pub open spec fn scan_text(b: Seq<u8>, q: int) -> Result<int, KismetError>
    decreases b.len() - q, 1int, 0int,
{
    if q < 0 || q >= b.len() {
        Err(KismetError::UnexpectedEof)
    } else {
        let tag = b[q];
        if tag == 0 {
            Ok(q + 1)
        } else if tag == 1 {
            scan_fields(b, q + 1, localized_layout(), 0)
        } else if tag == 2 || tag == 3 {
            scan_expr(b, q + 1)
        } else if tag == 4 {
            if q + 9 <= b.len() {
                Ok(q + 9)
            } else {
                Err(KismetError::UnexpectedEof)
            }
        } else {
            Err(KismetError::UnknownTextKind(tag))
        }
    }
}

/// Where reading list items at `q`, up to and including the terminator, ends.
pub open spec fn scan_list(b: Seq<u8>, q: int, terminator: u8) -> Result<int, KismetError>
    decreases b.len() - q, 1int, 0int,
{
    match scan_expr(b, q) {
        Ok(q2) => if b[q] == terminator {
            Ok(q2)
        } else if q < q2 <= b.len() {
            scan_list(b, q2, terminator)
        } else {
            Err(KismetError::UnexpectedEof)
        },
        Err(e) => Err(e),
    }
}

/// Where reading the body of a switch (after its token) at `q` ends.
pub open spec fn scan_switch(b: Seq<u8>, q: int) -> Result<int, KismetError>
    decreases b.len() - q, 1int, 0int,
{
    if q < 0 || q + 6 > b.len() {
        Err(KismetError::UnexpectedEof)
    } else {
        match scan_expr(b, q + 6) {
            Ok(q2) => if q + 6 < q2 <= b.len() {
                match scan_cases(b, q2, le_value(b.subrange(q, q + 2)) as int) {
                    Ok(q3) => if q2 <= q3 <= b.len() {
                        scan_expr(b, q3)
                    } else {
                        Err(KismetError::UnexpectedEof)
                    },
                    Err(e) => Err(e),
                }
            } else {
                Err(KismetError::UnexpectedEof)
            },
            Err(e) => Err(e),
        }
    }
}

/// Where reading `n` switch cases at `q` ends.
pub open spec fn scan_cases(b: Seq<u8>, q: int, n: int) -> Result<int, KismetError>
    decreases b.len() - q, 2int, n,
{
    if n <= 0 {
        Ok(q)
    } else {
        match scan_expr(b, q) {
            Ok(q2) => if q < q2 && q2 + 4 <= b.len() {
                match scan_expr(b, q2 + 4) {
                    Ok(q3) => if q2 + 4 < q3 <= b.len() {
                        scan_cases(b, q3, n - 1)
                    } else {
                        Err(KismetError::UnexpectedEof)
                    },
                    Err(e) => Err(e),
                }
            } else {
                Err(KismetError::UnexpectedEof)
            },
            Err(e) => Err(e),
        }
    }
}

/// Every terminator in a layout is a token without fields.
pub proof fn lemma_layout_terminators(t: u8)
    ensures
        token_layout(t) matches Some(kinds) ==> forall|j: int|
            0 <= j < kinds.len() ==> ((#[trigger] kinds[j]) matches FieldKind::List {
                terminator,
                ..
            } ==> token_layout(terminator) == Some(Seq::<FieldKind>::empty())),
{
}

/// Every fixed-width field in a layout has at least one byte.
pub proof fn lemma_layout_fixed_widths(t: u8)
    ensures
        token_layout(t) matches Some(kinds) ==> forall|j: int|
            0 <= j < kinds.len() ==> ((#[trigger] kinds[j]) matches FieldKind::Fixed(n) ==> n >= 1),
{
}

/// Reads the bytes of a NUL-terminated narrow string at `q`.
fn read_narrow(bytes: &[u8], q: usize) -> (r: Result<(Vec<u8>, usize), KismetError>)
    requires
        q <= bytes@.len(),
    ensures
        match scan_narrow(bytes@, q as int) {
            Ok(end) => r matches Ok((chars, e)) && e == end && q < e <= bytes@.len()
                && chars@ + seq![0u8] == bytes@.subrange(q as int, e as int)
                && forall|i: int| 0 <= i < chars@.len() ==> chars@[i] != 0,
            Err(err) => r == Err::<(Vec<u8>, usize), KismetError>(err),
        },
{
    let mut chars: Vec<u8> = Vec::new();
    let mut cur = q;
    while cur < bytes.len() && bytes[cur] != 0
        invariant
            q <= cur <= bytes@.len(),
            scan_narrow(bytes@, q as int) == scan_narrow(bytes@, cur as int),
            chars@ == bytes@.subrange(q as int, cur as int),
            forall|i: int| 0 <= i < chars@.len() ==> chars@[i] != 0,
        decreases bytes@.len() - cur,
    {
        chars.push(bytes[cur]);
        cur = cur + 1;
        assert(chars@ =~= bytes@.subrange(q as int, cur as int));
    }
    if cur >= bytes.len() {
        return Err(KismetError::UnexpectedEof);
    }
    assert(chars@ + seq![0u8] =~= bytes@.subrange(q as int, cur + 1));
    Ok((chars, cur + 1))
}

/// Reads the units of a string of 16-bit units, closed by a zero unit, at `q`.
fn read_wide(bytes: &[u8], q: usize) -> (r: Result<(Vec<u16>, usize), KismetError>)
    requires
        q <= bytes@.len(),
    ensures
        match scan_wide(bytes@, q as int) {
            Ok(end) => r matches Ok((units, e)) && e == end && q < e <= bytes@.len()
                && ser_units(units@) + seq![0u8, 0u8] == bytes@.subrange(q as int, e as int)
                && forall|i: int| 0 <= i < units@.len() ==> units@[i] != 0,
            Err(err) => r == Err::<(Vec<u16>, usize), KismetError>(err),
        },
{
    let mut units: Vec<u16> = Vec::new();
    let mut cur = q;
    let len = bytes.len();
    loop
        invariant
            len == bytes@.len(),
            q <= cur <= bytes@.len(),
            scan_wide(bytes@, q as int) == scan_wide(bytes@, cur as int),
            ser_units(units@) == bytes@.subrange(q as int, cur as int),
            forall|i: int| 0 <= i < units@.len() ==> units@[i] != 0,
        decreases bytes@.len() - cur,
    {
        let u = match read_u16(bytes, cur) {
            Some(u) => u,
            None => {
                return Err(KismetError::UnexpectedEof);
            },
        };
        proof {
            lemma_le_bytes_of_value(field(bytes@, cur as int, 2));
            assert(field(bytes@, cur as int, 2) =~= seq![bytes@[cur as int], bytes@[cur + 1]]);
            crate::wire::lemma_le_value2(field(bytes@, cur as int, 2));
        }
        if u == 0 {
            assert(le_bytes(0, 2) =~= seq![0u8, 0u8]) by {
                reveal_with_fuel(le_bytes, 3);
            }
            assert(ser_units(units@) + seq![0u8, 0u8] =~= bytes@.subrange(q as int, cur + 2));
            return Ok((units, cur + 2));
        }
        let ghost old_units = units@;
        units.push(u);
        assert(units@.subrange(0, units@.len() - 1) =~= old_units);
        cur = cur + 2;
        assert(ser_units(units@) =~= bytes@.subrange(q as int, cur as int));
    }
}

impl Expr {
    /// Reads one expression at `pos`: the expression and the position after it.
    ///
    /// The expression is the well-formed one whose bytecode is exactly the bytes
    /// read; reading fails where [`scan_expr`] says, with its error.
    pub fn read(bytes: &[u8], pos: usize) -> (r: Result<(Expr, usize), KismetError>)
        requires
            pos <= bytes@.len(),
        ensures
            match scan_expr(bytes@, pos as int) {
                Ok(end) => r matches Ok((e, q)) && q == end && pos < q <= bytes@.len()
                    && ser_expr(e) == bytes@.subrange(pos as int, q as int) && wf_expr(e),
                Err(err) => r == Err::<(Expr, usize), KismetError>(err),
            },
        decreases bytes@.len() - pos, 0int, 0int,
    {
        let len = bytes.len();
        if pos >= len {
            return Err(KismetError::UnexpectedEof);
        }
        let t = bytes[pos];
        if t == TOKEN_STRING_CONST {
            let (chars, end) = match read_narrow(bytes, pos + 1) {
                Ok(x) => x,
                Err(e) => {
                    return Err(e);
                },
            };
            let e = Expr::StringConst { chars };
            assert(bytes@.subrange(pos as int, end as int) =~= seq![t] + bytes@.subrange(
                pos + 1,
                end as int,
            ));
            assert(ser_expr(e) =~= bytes@.subrange(pos as int, end as int));
            return Ok((e, end));
        }
        if t == TOKEN_UNICODE_STRING_CONST {
            let (units, end) = match read_wide(bytes, pos + 1) {
                Ok(x) => x,
                Err(e) => {
                    return Err(e);
                },
            };
            let e = Expr::UnicodeStringConst { units };
            assert(bytes@.subrange(pos as int, end as int) =~= seq![t] + bytes@.subrange(
                pos + 1,
                end as int,
            ));
            assert(ser_expr(e) =~= bytes@.subrange(pos as int, end as int));
            return Ok((e, end));
        }
        if t == TOKEN_SWITCH_VALUE {
            return read_switch(bytes, pos + 1);
        }
        let kinds = match layout_of(t) {
            Some(kinds) => kinds,
            None => {
                return Err(KismetError::UnknownToken(t));
            },
        };
        proof {
            lemma_layout_terminators(t);
        }
        let mut operands: Vec<Operand> = Vec::new();
        let mut cur = pos + 1;
        let mut i: usize = 0;
        while i < kinds.len()
            invariant
                len == bytes@.len(),
                pos < len,
                t == bytes@[pos as int],
                t != TOKEN_STRING_CONST && t != TOKEN_UNICODE_STRING_CONST && t != TOKEN_SWITCH_VALUE,
                token_layout(t) == Some(kinds@),
                forall|j: int|
                    0 <= j < kinds@.len() ==> ((#[trigger] kinds@[j]) matches FieldKind::List {
                        terminator,
                        ..
                    } ==> token_layout(terminator) == Some(Seq::<FieldKind>::empty())),
                i <= kinds@.len(),
                pos + 1 <= cur <= len,
                scan_expr(bytes@, pos as int) == scan_fields(bytes@, cur as int, kinds@, i as int),
                operands@.len() == i,
                ser_operands(operands@) == bytes@.subrange(pos + 1, cur as int),
                wf_operands(operands@, kinds@),
            decreases kinds@.len() - i,
        {
            let (o, end) = match read_field(bytes, cur, kinds[i]) {
                Ok(x) => x,
                Err(e) => {
                    return Err(e);
                },
            };
            let ghost before = operands@;
            operands.push(o);
            proof {
                assert(operands@.subrange(0, operands@.len() - 1) =~= before);
                assert(bytes@.subrange(pos + 1, cur as int) + bytes@.subrange(cur as int, end as int)
                    =~= bytes@.subrange(pos + 1, end as int));
            }
            cur = end;
            i = i + 1;
        }
        let e = Expr::Node { token: t, operands };
        assert(ser_expr(e) =~= bytes@.subrange(pos as int, cur as int));
        Ok((e, cur))
    }
}

/// Reads one field of kind `k` at `q`: its operand and the position after it.
fn read_field(bytes: &[u8], q: usize, k: FieldKind) -> (r: Result<(Operand, usize), KismetError>)
    requires
        q <= bytes@.len(),
        k matches FieldKind::List { terminator, .. } ==> token_layout(terminator) == Some(
            Seq::<FieldKind>::empty(),
        ),
    ensures
        match scan_field(bytes@, q as int, k) {
            Ok(end) => r matches Ok((o, e)) && e == end && q <= e <= bytes@.len()
                && ser_operand(o) == bytes@.subrange(q as int, e as int) && wf_operand(o, k),
            Err(err) => r == Err::<(Operand, usize), KismetError>(err),
        },
    decreases bytes@.len() - q, 2int, 0int,
{
    let len = bytes.len();
    match k {
        FieldKind::Fixed(n) => match read_bytes(bytes, q, n as usize) {
            Some(v) => Ok((Operand::Fixed { bytes: v }, q + n as usize)),
            None => Err(KismetError::UnexpectedEof),
        },
        FieldKind::Nested => match Expr::read(bytes, q) {
            Ok((e, end)) => Ok((Operand::Nested { expr: Box::new(e) }, end)),
            Err(e) => Err(e),
        },
        FieldKind::Text => match read_text(bytes, q) {
            Ok((t, end)) => Ok((Operand::Text { text: Box::new(t) }, end)),
            Err(e) => Err(e),
        },
        FieldKind::List { counted, terminator } => {
            let mut count: Option<u32> = None;
            let mut start = q;
            if counted {
                match read_u32(bytes, q) {
                    Some(c) => {
                        proof {
                            lemma_le_bytes_of_value(field(bytes@, q as int, 4));
                        }
                        count = Some(c);
                        start = q + 4;
                    },
                    None => {
                        return Err(KismetError::UnexpectedEof);
                    },
                }
            }
            assert(count_bytes(count) == bytes@.subrange(q as int, start as int));
            let mut items: Vec<Expr> = Vec::new();
            let mut cur = start;
            loop
                invariant
                    len == bytes@.len(),
                    q <= start <= cur <= len,
                    count is Some == counted,
                    count_bytes(count) == bytes@.subrange(q as int, start as int),
                    token_layout(terminator) == Some(Seq::<FieldKind>::empty()),
                    scan_field(bytes@, q as int, k) == scan_list(bytes@, cur as int, terminator),
                    k == (FieldKind::List { counted, terminator }),
                    ser_exprs(items@) == bytes@.subrange(start as int, cur as int),
                    wf_items(items@, terminator),
                decreases len - cur,
            {
                let (e, end) = match Expr::read(bytes, cur) {
                    Ok(x) => x,
                    Err(err) => {
                        return Err(err);
                    },
                };
                if bytes[cur] == terminator {
                    let o = Operand::List { count, items, terminator };
                    assert(ser_operand(o) =~= bytes@.subrange(q as int, end as int));
                    return Ok((o, end));
                }
                assert(ser_expr(e)[0] == expr_token(e));
                assert(ser_expr(e)[0] == bytes@[cur as int]);
                let ghost before = items@;
                items.push(e);
                proof {
                    assert(items@.subrange(0, items@.len() - 1) =~= before);
                    assert(bytes@.subrange(start as int, cur as int) + bytes@.subrange(
                        cur as int,
                        end as int,
                    ) =~= bytes@.subrange(start as int, end as int));
                }
                cur = end;
            }
        },
    }
}

/// Reads a text literal at `q`: the text and the position after it.
#[verifier::rlimit(40)]
fn read_text(bytes: &[u8], q: usize) -> (r: Result<(ScriptText, usize), KismetError>)
    requires
        q <= bytes@.len(),
    ensures
        match scan_text(bytes@, q as int) {
            Ok(end) => r matches Ok((t, e)) && e == end && q < e <= bytes@.len()
                && ser_text(t) == bytes@.subrange(q as int, e as int) && wf_text(t),
            Err(err) => r == Err::<(ScriptText, usize), KismetError>(err),
        },
    decreases bytes@.len() - q, 1int, 0int,
{
    let len = bytes.len();
    if q >= len {
        return Err(KismetError::UnexpectedEof);
    }
    let tag = bytes[q];
    if tag == 0 {
        assert(ser_text(ScriptText::Empty) =~= bytes@.subrange(q as int, q + 1));
        Ok((ScriptText::Empty, q + 1))
    } else if tag == 1 {
        let (source, key, namespace, end) = match read_localized(bytes, q + 1) {
            Ok(x) => x,
            Err(e) => {
                return Err(e);
            },
        };
        let t = ScriptText::LocalizedText { source, key, namespace };
        assert(bytes@.subrange(q as int, end as int) =~= seq![1u8] + bytes@.subrange(
            q + 1,
            end as int,
        ));
        assert(ser_text(t) =~= bytes@.subrange(q as int, end as int));
        Ok((t, end))
    } else if tag == 2 || tag == 3 {
        let (literal, end) = match Expr::read(bytes, q + 1) {
            Ok(x) => x,
            Err(e) => {
                return Err(e);
            },
        };
        let t = if tag == 2 {
            ScriptText::InvariantText { literal }
        } else {
            ScriptText::LiteralString { literal }
        };
        assert(ser_text(t) =~= bytes@.subrange(q as int, end as int));
        Ok((t, end))
    } else if tag == 4 {
        match read_u64(bytes, q + 1) {
            Some(table) => {
                proof {
                    lemma_le_bytes_of_value(field(bytes@, q + 1, 8));
                }
                let t = ScriptText::StringTableEntry { table };
                assert(ser_text(t) =~= bytes@.subrange(q as int, q + 9));
                Ok((t, q + 9))
            },
            None => Err(KismetError::UnexpectedEof),
        }
    } else {
        Err(KismetError::UnknownTextKind(tag))
    }
}

/// Reads the body of a switch, after its token at `q - 1`.
fn read_switch(bytes: &[u8], q: usize) -> (r: Result<(Expr, usize), KismetError>)
    requires
        1 <= q <= bytes@.len(),
        bytes@[q - 1] == TOKEN_SWITCH_VALUE,
    ensures
        match scan_switch(bytes@, q as int) {
            Ok(end) => r matches Ok((e, p)) && p == end && q <= p <= bytes@.len()
                && ser_expr(e) == bytes@.subrange(q - 1, p as int) && wf_expr(e),
            Err(err) => r == Err::<(Expr, usize), KismetError>(err),
        },
    decreases bytes@.len() - q, 1int, 0int,
{
    let len = bytes.len();
    if q > len || len - q < 6 {
        return Err(KismetError::UnexpectedEof);
    }
    let n = match read_u16(bytes, q) {
        Some(n) => n,
        None => {
            return Err(KismetError::UnexpectedEof);
        },
    };
    let end_goto_offset = match read_u32(bytes, q + 2) {
        Some(v) => v,
        None => {
            return Err(KismetError::UnexpectedEof);
        },
    };
    proof {
        lemma_le_bytes_of_value(field(bytes@, q as int, 2));
        lemma_le_bytes_of_value(field(bytes@, q + 2, 4));
    }
    let (index_term, q2) = match Expr::read(bytes, q + 6) {
        Ok(x) => x,
        Err(e) => {
            return Err(e);
        },
    };
    let mut cases: Vec<SwitchCase> = Vec::new();
    let mut cur = q2;
    let mut i: u16 = 0;
    while i < n
        invariant
            len == bytes@.len(),
            q + 6 < q2 <= cur <= len,
            n as int == le_value(bytes@.subrange(q as int, q + 2)),
            scan_expr(bytes@, q + 6) == Ok::<int, KismetError>(q2 as int),
            i <= n,
            cases@.len() == i,
            scan_cases(bytes@, q2 as int, n as int) == scan_cases(bytes@, cur as int, n - i),
            ser_cases(cases@) == bytes@.subrange(q2 as int, cur as int),
            wf_cases(cases@),
        decreases n - i,
    {
        let (value, c2) = match Expr::read(bytes, cur) {
            Ok(x) => x,
            Err(e) => {
                return Err(e);
            },
        };
        let next_offset = match read_u32(bytes, c2) {
            Some(v) => v,
            None => {
                return Err(KismetError::UnexpectedEof);
            },
        };
        proof {
            lemma_le_bytes_of_value(field(bytes@, c2 as int, 4));
        }
        let (term, c3) = match Expr::read(bytes, c2 + 4) {
            Ok(x) => x,
            Err(e) => {
                return Err(e);
            },
        };
        let ghost before = cases@;
        let c = SwitchCase { value, next_offset, term };
        assert(ser_case(c) =~= bytes@.subrange(cur as int, c3 as int));
        cases.push(c);
        proof {
            assert(cases@.subrange(0, cases@.len() - 1) =~= before);
            assert(bytes@.subrange(q2 as int, cur as int) + bytes@.subrange(cur as int, c3 as int)
                =~= bytes@.subrange(q2 as int, c3 as int));
        }
        cur = c3;
        i = i + 1;
    }
    let (default_term, end) = match Expr::read(bytes, cur) {
        Ok(x) => x,
        Err(e) => {
            return Err(e);
        },
    };
    let e = Expr::SwitchValue {
        end_goto_offset,
        index_term: Box::new(index_term),
        cases,
        default_term: Box::new(default_term),
    };
    assert(ser_expr(e) =~= bytes@.subrange(q - 1, end as int));
    Ok((e, end))
}

/// The layout of a localized text: source, key and namespace.
pub open spec fn localized_layout() -> Seq<FieldKind> {
    seq![FieldKind::Nested, FieldKind::Nested, FieldKind::Nested]
}

/// Reads the three expressions of a localized text at `q`.
fn read_localized(bytes: &[u8], q: usize) -> (r: Result<(Expr, Expr, Expr, usize), KismetError>)
    requires
        q <= bytes@.len(),
    ensures
        match scan_fields(bytes@, q as int, localized_layout(), 0) {
            Ok(end) => r matches Ok((s, k, n, e)) && e == end && q < e <= bytes@.len()
                && ser_expr(s) + ser_expr(k) + ser_expr(n) == bytes@.subrange(q as int, e as int)
                && wf_expr(s) && wf_expr(k) && wf_expr(n),
            Err(err) => r == Err::<(Expr, Expr, Expr, usize), KismetError>(err),
        },
    decreases bytes@.len() - q, 1int, 0int,
{
    let ghost kinds = localized_layout();
    assert(kinds[0] == FieldKind::Nested && kinds[1] == FieldKind::Nested && kinds[2]
        == FieldKind::Nested);
    assert(scan_field(bytes@, q as int, FieldKind::Nested) == scan_expr(bytes@, q as int));
    let (source, e1) = match Expr::read(bytes, q) {
        Ok(x) => x,
        Err(e) => {
            return Err(e);
        },
    };
    assert(scan_fields(bytes@, q as int, kinds, 0) == scan_fields(bytes@, e1 as int, kinds, 1));
    assert(scan_field(bytes@, e1 as int, FieldKind::Nested) == scan_expr(bytes@, e1 as int));
    let (key, e2) = match Expr::read(bytes, e1) {
        Ok(x) => x,
        Err(e) => {
            return Err(e);
        },
    };
    assert(scan_fields(bytes@, e1 as int, kinds, 1) == scan_fields(bytes@, e2 as int, kinds, 2));
    assert(scan_field(bytes@, e2 as int, FieldKind::Nested) == scan_expr(bytes@, e2 as int));
    let (namespace, e3) = match Expr::read(bytes, e2) {
        Ok(x) => x,
        Err(e) => {
            return Err(e);
        },
    };
    assert(scan_fields(bytes@, e2 as int, kinds, 2) == scan_fields(bytes@, e3 as int, kinds, 3));
    assert(bytes@.subrange(q as int, e1 as int) + bytes@.subrange(e1 as int, e2 as int)
        + bytes@.subrange(e2 as int, e3 as int) =~= bytes@.subrange(q as int, e3 as int));
    Ok((source, key, namespace, e3))
}

proof fn lemma_ser_operands_prefix(s: Seq<Operand>, i: int)
    requires
        0 <= i <= s.len(),
    ensures
        ser_operands(s.subrange(0, i)).len() <= ser_operands(s).len(),
    decreases s.len(),
{
    if i < s.len() {
        let t = s.subrange(0, s.len() - 1);
        lemma_ser_operands_prefix(t, i);
        assert(t.subrange(0, i) =~= s.subrange(0, i));
    } else {
        assert(s.subrange(0, i) =~= s);
    }
}

proof fn lemma_ser_exprs_prefix(s: Seq<Expr>, i: int)
    requires
        0 <= i <= s.len(),
    ensures
        ser_exprs(s.subrange(0, i)).len() <= ser_exprs(s).len(),
    decreases s.len(),
{
    if i < s.len() {
        let t = s.subrange(0, s.len() - 1);
        lemma_ser_exprs_prefix(t, i);
        assert(t.subrange(0, i) =~= s.subrange(0, i));
    } else {
        assert(s.subrange(0, i) =~= s);
    }
}

proof fn lemma_ser_cases_prefix(s: Seq<SwitchCase>, i: int)
    requires
        0 <= i <= s.len(),
    ensures
        ser_cases(s.subrange(0, i)).len() <= ser_cases(s).len(),
    decreases s.len(),
{
    if i < s.len() {
        let t = s.subrange(0, s.len() - 1);
        lemma_ser_cases_prefix(t, i);
        assert(t.subrange(0, i) =~= s.subrange(0, i));
    } else {
        assert(s.subrange(0, i) =~= s);
    }
}

proof fn lemma_ser_units_len(s: Seq<u16>)
    ensures
        ser_units(s).len() == 2 * s.len(),
    decreases s.len(),
{
    if s.len() > 0 {
        lemma_ser_units_len(s.subrange(0, s.len() - 1));
        crate::wire::lemma_le_bytes_len(s[s.len() - 1] as nat, 2);
    }
}

impl Expr {
    /// The number of bytes of the expression's bytecode: what reading it consumed.
    pub fn size(&self) -> (n: usize)
        requires
            ser_expr(*self).len() <= usize::MAX,
        ensures
            n == ser_expr(*self).len(),
        decreases self,
    {
        match self {
            Expr::Node { token, operands } => {
                let mut sum: usize = 1;
                let mut i: usize = 0;
                while i < operands.len()
                    invariant
                        i <= operands@.len(),
                        1 + ser_operands(operands@).len() <= usize::MAX,
                        sum == 1 + ser_operands(operands@.subrange(0, i as int)).len(),
                        *self == (Expr::Node { token: *token, operands: *operands }),
                    decreases operands@.len() - i,
                {
                    proof {
                        lemma_ser_operands_prefix(operands@, i + 1);
                        assert(operands@.subrange(0, i + 1).subrange(0, i as int) =~= operands@.subrange(0, i as int));
                    }
                    proof {
                        assert(decreases_to!(*self => self->operands));
                        assert(decreases_to!(self->operands => (self->operands)@));
                        assert(decreases_to!((self->operands)@ => (self->operands)@[i as int]));
                    }
                    let k = operand_size(&operands[i]);
                    sum = sum + k;
                    i = i + 1;
                }
                assert(operands@.subrange(0, i as int) =~= operands@);
                sum
            },
            Expr::StringConst { chars } => chars.len() + 2,
            Expr::UnicodeStringConst { units } => {
                proof {
                    lemma_ser_units_len(units@);
                }
                units.len() * 2 + 3
            },
            Expr::SwitchValue { end_goto_offset, index_term, cases, default_term } => {
                proof {
                    crate::wire::lemma_le_bytes_len(cases@.len(), 2);
                    crate::wire::lemma_le_bytes_len(*end_goto_offset as nat, 4);
                }
                let mut sum: usize = 7 + index_term.size();
                let mut i: usize = 0;
                while i < cases.len()
                    invariant
                        i <= cases@.len(),
                        7 + ser_expr(**index_term).len() + ser_cases(cases@).len() + ser_expr(
                            **default_term,
                        ).len() <= usize::MAX,
                        sum == 7 + ser_expr(**index_term).len() + ser_cases(
                            cases@.subrange(0, i as int),
                        ).len(),
                        *self == (Expr::SwitchValue {
                            end_goto_offset: *end_goto_offset,
                            index_term: *index_term,
                            cases: *cases,
                            default_term: *default_term,
                        }),
                    decreases cases@.len() - i,
                {
                    proof {
                        lemma_ser_cases_prefix(cases@, i + 1);
                        assert(cases@.subrange(0, i + 1).subrange(0, i as int) =~= cases@.subrange(0, i as int));
                        crate::wire::lemma_le_bytes_len(cases@[i as int].next_offset as nat, 4);
                        assert(cases@.subrange(0, i + 1)[i as int] == cases@[i as int]);
                        assert(ser_cases(cases@.subrange(0, i + 1)) == ser_cases(cases@.subrange(0, i as int)) + ser_case(cases@[i as int]));
                        assert(ser_case(cases@[i as int]).len() == ser_expr(cases@[i as int].value).len() + 4 + ser_expr(cases@[i as int].term).len());
                    }
                    let c = &cases[i];
                    proof {
                        assert(decreases_to!(*self => self->cases));
                        assert(decreases_to!(self->cases => (self->cases)@));
                        assert(decreases_to!((self->cases)@ => (self->cases)@[i as int]));
                        assert(decreases_to!((self->cases)@[i as int] => (self->cases)@[i as int].value));
                        assert(decreases_to!((self->cases)@[i as int] => (self->cases)@[i as int].term));
                    }
                    sum = sum + c.value.size() + 4 + c.term.size();
                    i = i + 1;
                }
                assert(cases@.subrange(0, i as int) =~= cases@);
                sum + default_term.size()
            },
        }
    }

    /// The token byte that the expression starts with.
    pub fn token(&self) -> (t: u8)
        ensures
            t == expr_token(*self),
    {
        match self {
            Expr::Node { token, .. } => *token,
            Expr::StringConst { .. } => TOKEN_STRING_CONST,
            Expr::UnicodeStringConst { .. } => TOKEN_UNICODE_STRING_CONST,
            Expr::SwitchValue { .. } => TOKEN_SWITCH_VALUE,
        }
    }
}

/// The number of bytes of an operand's bytecode.
fn operand_size(o: &Operand) -> (n: usize)
    requires
        ser_operand(*o).len() <= usize::MAX,
    ensures
        n == ser_operand(*o).len(),
    decreases o,
{
    match o {
        Operand::Fixed { bytes } => bytes.len(),
        Operand::Nested { expr } => expr.size(),
        Operand::Text { text } => text_size(text),
        Operand::List { count, items, terminator } => {
            let mut sum: usize = if count.is_some() {
                proof {
                    crate::wire::lemma_le_bytes_len(count->0 as nat, 4);
                }
                5
            } else {
                1
            };
            let mut i: usize = 0;
            while i < items.len()
                invariant
                    i <= items@.len(),
                    count_bytes(*count).len() + ser_exprs(items@).len() + 1 <= usize::MAX,
                    sum == count_bytes(*count).len() + 1 + ser_exprs(items@.subrange(0, i as int)).len(),
                    *o == (Operand::List { count: *count, items: *items, terminator: *terminator }),
                decreases items@.len() - i,
            {
                proof {
                    lemma_ser_exprs_prefix(items@, i + 1);
                    assert(items@.subrange(0, i + 1).subrange(0, i as int) =~= items@.subrange(0, i as int));
                }
                proof {
                    assert(decreases_to!(*o => o->items));
                    assert(decreases_to!(o->items => (o->items)@));
                    assert(decreases_to!((o->items)@ => (o->items)@[i as int]));
                }
                sum = sum + items[i].size();
                i = i + 1;
            }
            assert(items@.subrange(0, i as int) =~= items@);
            sum
        },
    }
}

/// The number of bytes of a text literal's bytecode.
fn text_size(t: &ScriptText) -> (n: usize)
    requires
        ser_text(*t).len() <= usize::MAX,
    ensures
        n == ser_text(*t).len(),
    decreases t,
{
    match t {
        ScriptText::Empty => 1,
        ScriptText::LocalizedText { source, key, namespace } => 1 + source.size() + key.size()
            + namespace.size(),
        ScriptText::InvariantText { literal } => 1 + literal.size(),
        ScriptText::LiteralString { literal } => 1 + literal.size(),
        ScriptText::StringTableEntry { table } => {
            proof {
                crate::wire::lemma_le_bytes_len(*table as nat, 8);
            }
            9
        },
    }
}

/// Whether reading expressions one after the other from `p` ends exactly at
/// the end of the script, or the error that stops it.
pub open spec fn scan_script(b: Seq<u8>, p: int) -> Result<(), KismetError>
    decreases b.len() - p,
{
    if p < 0 || p >= b.len() {
        Ok(())
    } else {
        match scan_expr(b, p) {
            Ok(q) => if p < q <= b.len() {
                scan_script(b, q)
            } else {
                Err(KismetError::UnexpectedEof)
            },
            Err(e) => Err(e),
        }
    }
}

/// The expressions of a script listing, without their offsets.
pub open spec fn listing_exprs(v: Seq<(usize, Expr)>) -> Seq<Expr> {
    v.map_values(|x: (usize, Expr)| x.1)
}

/// Reads a whole script: each expression with the offset of its token.
///
/// On success the expressions, one after the other, are exactly the script's
/// bytes, and each offset is where its expression starts; reading fails with
/// the first error that [`scan_script`] meets.
pub fn read_script(bytes: &[u8]) -> (r: Result<Vec<(usize, Expr)>, KismetError>)
    ensures
        match scan_script(bytes@, 0) {
            Ok(()) => r matches Ok(v) && ser_exprs(listing_exprs(v@)) == bytes@ && (forall|i: int|
                0 <= i < v@.len() ==> wf_expr(#[trigger] v@[i].1) && v@[i].0 == ser_exprs(
                    listing_exprs(v@).subrange(0, i),
                ).len()),
            Err(err) => r == Err::<Vec<(usize, Expr)>, KismetError>(err),
        },
{
    let len = bytes.len();
    let mut out: Vec<(usize, Expr)> = Vec::new();
    let mut pos: usize = 0;
    while pos < len
        invariant
            len == bytes@.len(),
            pos <= len,
            scan_script(bytes@, 0) == scan_script(bytes@, pos as int),
            ser_exprs(listing_exprs(out@)) == bytes@.subrange(0, pos as int),
            forall|i: int|
                0 <= i < out@.len() ==> wf_expr(#[trigger] out@[i].1) && out@[i].0 == ser_exprs(
                    listing_exprs(out@).subrange(0, i),
                ).len(),
        decreases len - pos,
    {
        let (e, end) = match Expr::read(bytes, pos) {
            Ok(x) => x,
            Err(err) => {
                return Err(err);
            },
        };
        let ghost before = out@;
        out.push((pos, e));
        proof {
            assert(listing_exprs(out@).subrange(0, listing_exprs(out@).len() - 1) =~= listing_exprs(
                before,
            ));
            assert forall|i: int| 0 <= i < before.len() implies listing_exprs(out@).subrange(0, i)
                =~= listing_exprs(before).subrange(0, i) by {}
            assert(bytes@.subrange(0, pos as int) + bytes@.subrange(pos as int, end as int)
                =~= bytes@.subrange(0, end as int));
        }
        pos = end;
    }
    assert(bytes@.subrange(0, len as int) =~= bytes@);
    Ok(out)
}

/// A window of `b` that holds `x + y` holds `x` and then `y`.
proof fn lemma_split(b: Seq<u8>, q: int, x: Seq<u8>, y: Seq<u8>)
    requires
        0 <= q,
        q + x.len() + y.len() <= b.len(),
        b.subrange(q, q + x.len() + y.len()) == x + y,
    ensures
        b.subrange(q, q + x.len()) == x,
        b.subrange(q + x.len(), q + x.len() + y.len()) == y,
{
    assert forall|k: int| 0 <= k < x.len() implies b.subrange(q, q + x.len())[k] == x[k] by {
        assert(b.subrange(q, q + x.len() + y.len())[k] == (x + y)[k]);
    }
    assert forall|k: int| 0 <= k < y.len() implies b.subrange(q + x.len(), q + x.len() + y.len())[k]
        == y[k] by {
        assert(b.subrange(q, q + x.len() + y.len())[x.len() + k] == (x + y)[x.len() + k]);
        assert(b.subrange(q, q + x.len() + y.len())[x.len() + k] == b[q + x.len() + k]);
        assert(b.subrange(q + x.len(), q + x.len() + y.len())[k] == b[q + x.len() + k]);
        assert((x + y)[x.len() + k] == y[k]);
    }
    assert(b.subrange(q, q + x.len()) =~= x);
    assert(b.subrange(q + x.len(), q + x.len() + y.len()) =~= y);
}

proof fn lemma_ser_operands_concat(a: Seq<Operand>, b: Seq<Operand>)
    ensures
        ser_operands(a + b) == ser_operands(a) + ser_operands(b),
    decreases b.len(),
{
    if b.len() == 0 {
        assert(a + b =~= a);
        assert(ser_operands(a) + ser_operands(b) =~= ser_operands(a));
    } else {
        let b1 = b.subrange(0, b.len() - 1);
        lemma_ser_operands_concat(a, b1);
        assert((a + b).subrange(0, (a + b).len() - 1) =~= a + b1);
        assert((a + b)[(a + b).len() - 1] == b[b.len() - 1]);
        assert(ser_operands(a + b) =~= ser_operands(a) + ser_operands(b));
    }
}

proof fn lemma_ser_exprs_concat(a: Seq<Expr>, b: Seq<Expr>)
    ensures
        ser_exprs(a + b) == ser_exprs(a) + ser_exprs(b),
    decreases b.len(),
{
    if b.len() == 0 {
        assert(a + b =~= a);
        assert(ser_exprs(a) + ser_exprs(b) =~= ser_exprs(a));
    } else {
        let b1 = b.subrange(0, b.len() - 1);
        lemma_ser_exprs_concat(a, b1);
        assert((a + b).subrange(0, (a + b).len() - 1) =~= a + b1);
        assert((a + b)[(a + b).len() - 1] == b[b.len() - 1]);
        assert(ser_exprs(a + b) =~= ser_exprs(a) + ser_exprs(b));
    }
}

proof fn lemma_ser_cases_concat(a: Seq<SwitchCase>, b: Seq<SwitchCase>)
    ensures
        ser_cases(a + b) == ser_cases(a) + ser_cases(b),
    decreases b.len(),
{
    if b.len() == 0 {
        assert(a + b =~= a);
        assert(ser_cases(a) + ser_cases(b) =~= ser_cases(a));
    } else {
        let b1 = b.subrange(0, b.len() - 1);
        lemma_ser_cases_concat(a, b1);
        assert((a + b).subrange(0, (a + b).len() - 1) =~= a + b1);
        assert((a + b)[(a + b).len() - 1] == b[b.len() - 1]);
        assert(ser_cases(a + b) =~= ser_cases(a) + ser_cases(b));
    }
}

/// The operands from `i` on serialize as operand `i` and then the operands after it.
proof fn lemma_ser_operands_front(s: Seq<Operand>, i: int)
    requires
        0 <= i < s.len(),
    ensures
        ser_operands(s.subrange(i, s.len() as int)) == ser_operand(s[i]) + ser_operands(
            s.subrange(i + 1, s.len() as int),
        ),
{
    let one = seq![s[i]];
    assert(s.subrange(i, s.len() as int) =~= one + s.subrange(i + 1, s.len() as int));
    lemma_ser_operands_concat(one, s.subrange(i + 1, s.len() as int));
    assert(one.subrange(0, 0) =~= Seq::<Operand>::empty());
    assert(ser_operands(one) == ser_operands(one.subrange(0, 0)) + ser_operand(one[0]));
    assert(ser_operands(one) =~= ser_operand(s[i]));
}

/// The expressions from `i` on serialize as expression `i` and then those after it.
proof fn lemma_ser_exprs_front(s: Seq<Expr>, i: int)
    requires
        0 <= i < s.len(),
    ensures
        ser_exprs(s.subrange(i, s.len() as int)) == ser_expr(s[i]) + ser_exprs(
            s.subrange(i + 1, s.len() as int),
        ),
{
    let one = seq![s[i]];
    assert(s.subrange(i, s.len() as int) =~= one + s.subrange(i + 1, s.len() as int));
    lemma_ser_exprs_concat(one, s.subrange(i + 1, s.len() as int));
    assert(one.subrange(0, 0) =~= Seq::<Expr>::empty());
    assert(ser_exprs(one) == ser_exprs(one.subrange(0, 0)) + ser_expr(one[0]));
    assert(ser_exprs(one) =~= ser_expr(s[i]));
}

/// The cases from `i` on serialize as case `i` and then the cases after it.
proof fn lemma_ser_cases_front(s: Seq<SwitchCase>, i: int)
    requires
        0 <= i < s.len(),
    ensures
        ser_cases(s.subrange(i, s.len() as int)) == ser_case(s[i]) + ser_cases(
            s.subrange(i + 1, s.len() as int),
        ),
{
    let one = seq![s[i]];
    assert(s.subrange(i, s.len() as int) =~= one + s.subrange(i + 1, s.len() as int));
    lemma_ser_cases_concat(one, s.subrange(i + 1, s.len() as int));
    assert(one.subrange(0, 0) =~= Seq::<SwitchCase>::empty());
    assert(ser_cases(one) == ser_cases(one.subrange(0, 0)) + ser_case(one[0]));
    assert(ser_cases(one) =~= ser_case(s[i]));
}

proof fn lemma_wf_operands_at(s: Seq<Operand>, kinds: Seq<FieldKind>, i: int)
    requires
        wf_operands(s, kinds),
        0 <= i < s.len(),
    ensures
        wf_operand(s[i], kinds[i]),
    decreases s.len(),
{
    if i < s.len() - 1 {
        lemma_wf_operands_at(s.subrange(0, s.len() - 1), kinds, i);
    }
}

proof fn lemma_wf_items_at(s: Seq<Expr>, t: u8, i: int)
    requires
        wf_items(s, t),
        0 <= i < s.len(),
    ensures
        wf_expr(s[i]) && expr_token(s[i]) != t,
    decreases s.len(),
{
    if i < s.len() - 1 {
        lemma_wf_items_at(s.subrange(0, s.len() - 1), t, i);
    }
}

proof fn lemma_wf_cases_at(s: Seq<SwitchCase>, i: int)
    requires
        wf_cases(s),
        0 <= i < s.len(),
    ensures
        wf_expr(s[i].value) && wf_expr(s[i].term),
    decreases s.len(),
{
    if i < s.len() - 1 {
        lemma_wf_cases_at(s.subrange(0, s.len() - 1), i);
    }
}

/// An expression's bytecode starts with its token.
proof fn lemma_ser_expr_token(e: Expr)
    ensures
        ser_expr(e).len() >= 1,
        ser_expr(e)[0] == expr_token(e),
{
}

proof fn lemma_ser_units_at(s: Seq<u16>, j: int)
    requires
        0 <= j < s.len(),
    ensures
        ser_units(s).len() == 2 * s.len(),
        ser_units(s).subrange(2 * j, 2 * j + 2) == le_bytes(s[j] as nat, 2),
    decreases s.len(),
{
    lemma_ser_units_len(s);
    let pre = s.subrange(0, s.len() - 1);
    lemma_ser_units_len(pre);
    crate::wire::lemma_le_bytes_len(s[s.len() - 1] as nat, 2);
    if j == s.len() - 1 {
        assert(ser_units(s).subrange(2 * j, 2 * j + 2) =~= le_bytes(s[j] as nat, 2));
    } else {
        lemma_ser_units_at(pre, j);
        assert(ser_units(s).subrange(2 * j, 2 * j + 2) =~= ser_units(pre).subrange(2 * j, 2 * j + 2));
    }
}

proof fn lemma_scan_narrow(chars: Seq<u8>, b: Seq<u8>, q0: int, i: int)
    requires
        0 <= q0,
        q0 + chars.len() + 1 <= b.len(),
        b.subrange(q0, q0 + chars.len() + 1) == chars + seq![0u8],
        forall|k: int| 0 <= k < chars.len() ==> chars[k] != 0,
        0 <= i <= chars.len(),
    ensures
        scan_narrow(b, q0 + i) == Ok::<int, KismetError>(q0 + chars.len() + 1),
    decreases chars.len() - i,
{
    assert(b[q0 + i] == b.subrange(q0, q0 + chars.len() + 1)[i]);
    assert((chars + seq![0u8])[i] == if i < chars.len() { chars[i] } else { 0u8 });
    if i < chars.len() {
        lemma_scan_narrow(chars, b, q0, i + 1);
    }
}

proof fn lemma_scan_wide(units: Seq<u16>, b: Seq<u8>, q0: int, j: int)
    requires
        0 <= q0,
        q0 + 2 * units.len() + 2 <= b.len(),
        b.subrange(q0, q0 + 2 * units.len() + 2) == ser_units(units) + seq![0u8, 0u8],
        forall|k: int| 0 <= k < units.len() ==> units[k] != 0,
        0 <= j <= units.len(),
    ensures
        scan_wide(b, q0 + 2 * j) == Ok::<int, KismetError>(q0 + 2 * units.len() + 2),
    decreases units.len() - j,
{
    lemma_ser_units_len(units);
    let w = b.subrange(q0, q0 + 2 * units.len() + 2);
    assert(b[q0 + 2 * j] == w[2 * j]);
    assert(b[q0 + 2 * j + 1] == w[2 * j + 1]);
    if j < units.len() {
        lemma_ser_units_at(units, j);
        let pair = le_bytes(units[j] as nat, 2);
        crate::wire::lemma_le_bytes_len(units[j] as nat, 2);
        assert(w[2 * j] == pair[0]) by {
            assert(ser_units(units).subrange(2 * j, 2 * j + 2)[0] == pair[0]);
        }
        assert(w[2 * j + 1] == pair[1]) by {
            assert(ser_units(units).subrange(2 * j, 2 * j + 2)[1] == pair[1]);
        }
        crate::wire::lemma_le_roundtrip_widths(units[j] as nat);
        crate::wire::lemma_le_value2(pair);
        lemma_scan_wide(units, b, q0, j + 1);
    }
}

/// Reading the bytecode of a well-formed expression, found at `p`, ends right
/// after that bytecode.
proof fn lemma_scan_expr(e: Expr, b: Seq<u8>, p: int)
    requires
        wf_expr(e),
        0 <= p,
        p + ser_expr(e).len() <= b.len(),
        b.subrange(p, p + ser_expr(e).len()) == ser_expr(e),
    ensures
        scan_expr(b, p) == Ok::<int, KismetError>(p + ser_expr(e).len()),
    decreases e, 0int,
{
    let x = ser_expr(e);
    lemma_ser_expr_token(e);
    assert(b[p] == b.subrange(p, p + x.len())[0]);
    match e {
        Expr::Node { token, operands } => {
            let kinds = token_layout(token)->0;
            lemma_layout_terminators(token);
            let ops = operands@;
            lemma_split(b, p, seq![token], ser_operands(ops));
            assert(ops.subrange(0, ops.len() as int) =~= ops);
            lemma_scan_fields(ops, kinds, b, p + 1, 0);
        },
        Expr::StringConst { chars } => {
            assert(x =~= seq![TOKEN_STRING_CONST] + (chars@ + seq![0u8]));
            lemma_split(b, p, seq![TOKEN_STRING_CONST], chars@ + seq![0u8]);
            lemma_scan_narrow(chars@, b, p + 1, 0);
        },
        Expr::UnicodeStringConst { units } => {
            lemma_ser_units_len(units@);
            assert(x =~= seq![TOKEN_UNICODE_STRING_CONST] + (ser_units(units@) + seq![0u8, 0u8]));
            lemma_split(b, p, seq![TOKEN_UNICODE_STRING_CONST], ser_units(units@) + seq![0u8, 0u8]);
            lemma_scan_wide(units@, b, p + 1, 0);
        },
        Expr::SwitchValue { end_goto_offset, index_term, cases, default_term } => {
            let n = cases@.len();
            let nb = le_bytes(n, 2);
            let ob = le_bytes(end_goto_offset as nat, 4);
            let xi = ser_expr(*index_term);
            let xc = ser_cases(cases@);
            let xd = ser_expr(*default_term);
            crate::wire::lemma_le_bytes_len(n, 2);
            crate::wire::lemma_le_bytes_len(end_goto_offset as nat, 4);
            lemma_ser_expr_token(*index_term);
            let tok = seq![TOKEN_SWITCH_VALUE];
            assert(x == tok + nb + ob + xi + xc + xd);
            lemma_split(b, p, tok + nb + ob + xi + xc, xd);
            lemma_split(b, p, tok + nb + ob + xi, xc);
            lemma_split(b, p, tok + nb + ob, xi);
            lemma_split(b, p, tok + nb, ob);
            lemma_split(b, p, tok, nb);
            let q = p + 1;
            crate::wire::lemma_le_roundtrip_widths(n);
            assert(le_value(b.subrange(q, q + 2)) == n);
            lemma_scan_expr(*index_term, b, q + 6);
            let q2 = q + 6 + xi.len();
            assert(cases@.subrange(0, n as int) =~= cases@);
            lemma_scan_cases(cases@, b, q2, 0);
            let q3 = q2 + xc.len();
            lemma_scan_expr(*default_term, b, q3);
        },
    }
}

/// Reading the fields `kinds[i..]` over the bytecode of operands `s[i..]` ends
/// right after that bytecode.
proof fn lemma_scan_fields(s: Seq<Operand>, kinds: Seq<FieldKind>, b: Seq<u8>, q: int, i: int)
    requires
        wf_operands(s, kinds),
        s.len() == kinds.len(),
        0 <= i <= s.len(),
        forall|j: int|
            0 <= j < kinds.len() ==> ((#[trigger] kinds[j]) matches FieldKind::List {
                terminator,
                ..
            } ==> token_layout(terminator) == Some(Seq::<FieldKind>::empty())),
        0 <= q,
        q + ser_operands(s.subrange(i, s.len() as int)).len() <= b.len(),
        b.subrange(q, q + ser_operands(s.subrange(i, s.len() as int)).len()) == ser_operands(
            s.subrange(i, s.len() as int),
        ),
    ensures
        scan_fields(b, q, kinds, i) == Ok::<int, KismetError>(
            q + ser_operands(s.subrange(i, s.len() as int)).len(),
        ),
    decreases s, s.len() - i,
{
    if i == s.len() {
        assert(s.subrange(i, s.len() as int) =~= Seq::<Operand>::empty());
    } else {
        lemma_ser_operands_front(s, i);
        let a = ser_operand(s[i]);
        let r = ser_operands(s.subrange(i + 1, s.len() as int));
        lemma_split(b, q, a, r);
        lemma_wf_operands_at(s, kinds, i);
        lemma_scan_operand(s[i], kinds[i], b, q);
        lemma_scan_fields(s, kinds, b, q + a.len(), i + 1);
    }
}

/// Reading a field of kind `k` over the bytecode of an operand of that kind ends
/// right after that bytecode.
proof fn lemma_scan_operand(o: Operand, k: FieldKind, b: Seq<u8>, q: int)
    requires
        wf_operand(o, k),
        k matches FieldKind::List { terminator, .. } ==> token_layout(terminator) == Some(
            Seq::<FieldKind>::empty(),
        ),
        0 <= q,
        q + ser_operand(o).len() <= b.len(),
        b.subrange(q, q + ser_operand(o).len()) == ser_operand(o),
    ensures
        scan_field(b, q, k) == Ok::<int, KismetError>(q + ser_operand(o).len()),
    decreases o, 0int,
{
    match o {
        Operand::Fixed { bytes } => {},
        Operand::Nested { expr } => {
            lemma_scan_expr(*expr, b, q);
        },
        Operand::Text { text } => {
            lemma_scan_text(*text, b, q);
        },
        Operand::List { count, items, terminator } => {
            let cb = count_bytes(count);
            let xs = ser_exprs(items@);
            if count is Some {
                crate::wire::lemma_le_bytes_len(count->0 as nat, 4);
            }
            assert(ser_operand(o) == cb + (xs + seq![terminator]));
            lemma_split(b, q, cb, xs + seq![terminator]);
            assert(items@.subrange(0, items@.len() as int) =~= items@);
            lemma_scan_list(items@, terminator, b, q + cb.len(), 0);
        },
    }
}

/// Reading list items over the bytecode of items `s[i..]` and the terminator
/// ends right after the terminator.
proof fn lemma_scan_list(s: Seq<Expr>, t: u8, b: Seq<u8>, q: int, i: int)
    requires
        wf_items(s, t),
        token_layout(t) == Some(Seq::<FieldKind>::empty()),
        0 <= i <= s.len(),
        0 <= q,
        q + ser_exprs(s.subrange(i, s.len() as int)).len() + 1 <= b.len(),
        b.subrange(q, q + ser_exprs(s.subrange(i, s.len() as int)).len() + 1) == ser_exprs(
            s.subrange(i, s.len() as int),
        ) + seq![t],
    ensures
        scan_list(b, q, t) == Ok::<int, KismetError>(
            q + ser_exprs(s.subrange(i, s.len() as int)).len() + 1,
        ),
    decreases s, s.len() - i,
{
    if i == s.len() {
        assert(s.subrange(i, s.len() as int) =~= Seq::<Expr>::empty());
        assert(b[q] == b.subrange(q, q + 1)[0]);
        assert(scan_fields(b, q + 1, Seq::<FieldKind>::empty(), 0) == Ok::<int, KismetError>(q + 1));
    } else {
        lemma_ser_exprs_front(s, i);
        let a = ser_expr(s[i]);
        let r = ser_exprs(s.subrange(i + 1, s.len() as int));
        assert(ser_exprs(s.subrange(i, s.len() as int)) + seq![t] == a + (r + seq![t]));
        lemma_split(b, q, a, r + seq![t]);
        lemma_wf_items_at(s, t, i);
        lemma_scan_expr(s[i], b, q);
        lemma_ser_expr_token(s[i]);
        assert(b[q] == b.subrange(q, q + a.len())[0]);
        lemma_scan_list(s, t, b, q + a.len(), i + 1);
    }
}

/// Reading a text literal over the bytecode of a well-formed one ends right after it.
#[verifier::rlimit(40)]
proof fn lemma_scan_text(t: ScriptText, b: Seq<u8>, q: int)
    requires
        wf_text(t),
        0 <= q,
        q + ser_text(t).len() <= b.len(),
        b.subrange(q, q + ser_text(t).len()) == ser_text(t),
    ensures
        scan_text(b, q) == Ok::<int, KismetError>(q + ser_text(t).len()),
    decreases t, 0int,
{
    assert(b[q] == b.subrange(q, q + ser_text(t).len())[0]);
    match t {
        ScriptText::Empty => {},
        ScriptText::LocalizedText { source, key, namespace } => {
            let xs = ser_expr(source);
            let xk = ser_expr(key);
            let xn = ser_expr(namespace);
            lemma_ser_expr_token(source);
            lemma_ser_expr_token(key);
            lemma_ser_expr_token(namespace);
            lemma_split(b, q, seq![1u8] + xs + xk, xn);
            lemma_split(b, q, seq![1u8] + xs, xk);
            lemma_split(b, q, seq![1u8], xs);
            let q1 = q + 1;
            let q2 = q1 + xs.len();
            let q3 = q2 + xk.len();
            lemma_scan_expr(source, b, q1);
            lemma_scan_expr(key, b, q2);
            lemma_scan_expr(namespace, b, q3);
            let kinds = localized_layout();
            assert(scan_field(b, q1, kinds[0]) == scan_expr(b, q1));
            assert(scan_field(b, q2, kinds[1]) == scan_expr(b, q2));
            assert(scan_field(b, q3, kinds[2]) == scan_expr(b, q3));
            assert(scan_fields(b, q3 + xn.len(), kinds, 3) == Ok::<int, KismetError>(q3 + xn.len()));
            assert(scan_fields(b, q3, kinds, 2) == Ok::<int, KismetError>(q3 + xn.len()));
            assert(scan_fields(b, q2, kinds, 1) == Ok::<int, KismetError>(q3 + xn.len()));
            assert(scan_fields(b, q1, kinds, 0) == Ok::<int, KismetError>(q3 + xn.len()));
        },
        ScriptText::InvariantText { literal } => {
            lemma_split(b, q, seq![2u8], ser_expr(literal));
            lemma_scan_expr(literal, b, q + 1);
        },
        ScriptText::LiteralString { literal } => {
            lemma_split(b, q, seq![3u8], ser_expr(literal));
            lemma_scan_expr(literal, b, q + 1);
        },
        ScriptText::StringTableEntry { table } => {
            crate::wire::lemma_le_bytes_len(table as nat, 8);
        },
    }
}

/// Reading a switch case over the bytecode of a well-formed one ends right after it.
proof fn lemma_scan_case(c: SwitchCase, b: Seq<u8>, q: int)
    requires
        wf_expr(c.value),
        wf_expr(c.term),
        0 <= q,
        q + ser_case(c).len() <= b.len(),
        b.subrange(q, q + ser_case(c).len()) == ser_case(c),
    ensures
        scan_expr(b, q) == Ok::<int, KismetError>(q + ser_expr(c.value).len()),
        scan_expr(b, q + ser_expr(c.value).len() + 4) == Ok::<int, KismetError>(
            q + ser_case(c).len(),
        ),
        ser_case(c).len() == ser_expr(c.value).len() + 4 + ser_expr(c.term).len(),
        ser_expr(c.value).len() >= 1,
        ser_expr(c.term).len() >= 1,
    decreases c, 0int,
{
    let xv = ser_expr(c.value);
    let ob = le_bytes(c.next_offset as nat, 4);
    let xt = ser_expr(c.term);
    crate::wire::lemma_le_bytes_len(c.next_offset as nat, 4);
    lemma_ser_expr_token(c.value);
    lemma_ser_expr_token(c.term);
    lemma_split(b, q, xv + ob, xt);
    lemma_split(b, q, xv, ob);
    lemma_scan_expr(c.value, b, q);
    lemma_scan_expr(c.term, b, q + xv.len() + 4);
}

/// Reading the cases `s[i..]` over their bytecode ends right after it.
proof fn lemma_scan_cases(s: Seq<SwitchCase>, b: Seq<u8>, q: int, i: int)
    requires
        wf_cases(s),
        0 <= i <= s.len(),
        0 <= q,
        q + ser_cases(s.subrange(i, s.len() as int)).len() <= b.len(),
        b.subrange(q, q + ser_cases(s.subrange(i, s.len() as int)).len()) == ser_cases(
            s.subrange(i, s.len() as int),
        ),
    ensures
        scan_cases(b, q, s.len() - i) == Ok::<int, KismetError>(
            q + ser_cases(s.subrange(i, s.len() as int)).len(),
        ),
    decreases s, s.len() - i,
{
    if i == s.len() {
        assert(s.subrange(i, s.len() as int) =~= Seq::<SwitchCase>::empty());
    } else {
        lemma_ser_cases_front(s, i);
        let a = ser_case(s[i]);
        let r = ser_cases(s.subrange(i + 1, s.len() as int));
        lemma_split(b, q, a, r);
        lemma_wf_cases_at(s, i);
        lemma_scan_case(s[i], b, q);
        lemma_scan_cases(s, b, q + a.len(), i + 1);
    }
}

/// Reading back the bytecode of a well-formed expression, whatever follows it,
/// consumes exactly that bytecode: as many bytes as the expression's size.
pub proof fn lemma_read_back(e: Expr, rest: Seq<u8>)
    requires
        wf_expr(e),
    ensures
        scan_expr(ser_expr(e) + rest, 0) == Ok::<int, KismetError>(ser_expr(e).len() as int),
{
    let b = ser_expr(e) + rest;
    assert(b.subrange(0, ser_expr(e).len() as int) =~= ser_expr(e));
    lemma_scan_expr(e, b, 0);
}

} // verus!
