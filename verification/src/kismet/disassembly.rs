//! The listing of a function's bytecode: each expression laid out as nested
//! lines, each line of an expression labelled with the expression's offset,
//! and the offsets accounted exactly: an expression's lines start at its
//! offset and the next expression starts right after its bytecode.

use vstd::prelude::*;
use super::{
    Expr, Operand, ScriptText, SwitchCase, KismetError, FieldKind, ser_expr, ser_operand,
    ser_operands, ser_exprs, ser_text, ser_cases, ser_case, ser_units, count_bytes, wf_expr,
    wf_operand, wf_operands, wf_items, wf_text, wf_cases, token_layout, read_script, scan_script,
    listing_exprs, lemma_wf_operands_at, lemma_wf_items_at, lemma_wf_cases_at,
    lemma_layout_fixed_widths, lemma_ser_units_len, lemma_ser_exprs_prefix,
    lemma_ser_operands_prefix, lemma_ser_cases_prefix,
};
use crate::pak::utf8_lossy;
use crate::listing::{
    digit_text, LineModel, line_model, line_models, lemma_line_models_push, SourceLine, SourceCollector, Source, line_count, line_count_all, height, height_all,
    lemma_numbered_keeps, lemma_numbered_records, lemma_rendered_push, rendered_all, numbered_all,
};
use crate::wire::lemma_le_bytes_len;

verus! {

/// The name of an expression token: the engine's name of the instruction,
/// `Unknown` for a token it does not name.
pub open spec fn token_text(token: u8) -> Seq<char> {
    match token {
        0x00 => "ExLocalVariable"@,
        0x01 => "ExInstanceVariable"@,
        0x02 => "ExDefaultVariable"@,
        0x04 => "ExReturn"@,
        0x06 => "ExJump"@,
        0x07 => "ExJumpIfNot"@,
        0x09 => "ExAssert"@,
        0x0B => "ExNothing"@,
        0x0F => "ExLet"@,
        0x12 => "ExClassContext"@,
        0x13 => "ExMetaCast"@,
        0x14 => "ExLetBool"@,
        0x15 => "ExEndParmValue"@,
        0x16 => "ExEndFunctionParms"@,
        0x17 => "ExSelf"@,
        0x18 => "ExSkip"@,
        0x19 => "ExContext"@,
        0x1A => "ExContextFailSilent"@,
        0x1B => "ExVirtualFunction"@,
        0x1C => "ExFinalFunction"@,
        0x1D => "ExIntConst"@,
        0x1E => "ExFloatConst"@,
        0x1F => "ExStringConst"@,
        0x20 => "ExObjectConst"@,
        0x21 => "ExNameConst"@,
        0x22 => "ExRotationConst"@,
        0x23 => "ExVectorConst"@,
        0x24 => "ExByteConst"@,
        0x25 => "ExIntZero"@,
        0x26 => "ExIntOne"@,
        0x27 => "ExTrue"@,
        0x28 => "ExFalse"@,
        0x29 => "ExTextConst"@,
        0x2A => "ExNoObject"@,
        0x2B => "ExTransformConst"@,
        0x2C => "ExIntConstByte"@,
        0x2D => "ExNoInterface"@,
        0x2E => "ExDynamicCast"@,
        0x2F => "ExStructConst"@,
        0x30 => "ExEndStructConst"@,
        0x31 => "ExSetArray"@,
        0x32 => "ExEndArray"@,
        0x33 => "ExPropertyConst"@,
        0x34 => "ExUnicodeStringConst"@,
        0x35 => "ExInt64Const"@,
        0x36 => "ExUInt64Const"@,
        0x38 => "ExPrimitiveCast"@,
        0x39 => "ExSetSet"@,
        0x3A => "ExEndSet"@,
        0x3B => "ExSetMap"@,
        0x3C => "ExEndMap"@,
        0x3D => "ExSetConst"@,
        0x3E => "ExEndSetConst"@,
        0x3F => "ExMapConst"@,
        0x40 => "ExEndMapConst"@,
        0x42 => "ExStructMemberContext"@,
        0x43 => "ExLetMulticastDelegate"@,
        0x44 => "ExLetDelegate"@,
        0x45 => "ExLocalVirtualFunction"@,
        0x46 => "ExLocalFinalFunction"@,
        0x48 => "ExLocalOutVariable"@,
        0x4A => "ExDeprecatedOp4A"@,
        0x4B => "ExInstanceDelegate"@,
        0x4C => "ExPushExecutionFlow"@,
        0x4D => "ExPopExecutionFlow"@,
        0x4E => "ExComputedJump"@,
        0x4F => "ExPopExecutionFlowIfNot"@,
        0x50 => "ExBreakpoint"@,
        0x51 => "ExInterfaceContext"@,
        0x52 => "ExObjToInterfaceCast"@,
        0x53 => "ExEndOfScript"@,
        0x54 => "ExCrossInterfaceCast"@,
        0x55 => "ExInterfaceToObjCast"@,
        0x5A => "ExWireTracepoint"@,
        0x5B => "ExSkipOffsetConst"@,
        0x5C => "ExAddMulticastDelegate"@,
        0x5D => "ExClearMulticastDelegate"@,
        0x5E => "ExTracepoint"@,
        0x5F => "ExLetObj"@,
        0x60 => "ExLetWeakObjPtr"@,
        0x61 => "ExBindDelegate"@,
        0x62 => "ExRemoveMulticastDelegate"@,
        0x63 => "ExCallMulticastDelegate"@,
        0x64 => "ExLetValueOnPersistentFrame"@,
        0x65 => "ExArrayConst"@,
        0x66 => "ExEndArrayConst"@,
        0x67 => "ExSoftObjectConst"@,
        0x68 => "ExCallMath"@,
        0x69 => "ExSwitchValue"@,
        0x6B => "ExArrayGetByRef"@,
        0x6C => "ExClassSparseDataVariable"@,
        0x6D => "ExFieldPathConst"@,
        _ => "Unknown"@,
    }
}

/// The name of an expression token.
pub fn token_name(token: u8) -> (r: &'static str)
    ensures
        r@ == token_text(token),
{
    match token {
        0x00 => "ExLocalVariable",
        0x01 => "ExInstanceVariable",
        0x02 => "ExDefaultVariable",
        0x04 => "ExReturn",
        0x06 => "ExJump",
        0x07 => "ExJumpIfNot",
        0x09 => "ExAssert",
        0x0B => "ExNothing",
        0x0F => "ExLet",
        0x12 => "ExClassContext",
        0x13 => "ExMetaCast",
        0x14 => "ExLetBool",
        0x15 => "ExEndParmValue",
        0x16 => "ExEndFunctionParms",
        0x17 => "ExSelf",
        0x18 => "ExSkip",
        0x19 => "ExContext",
        0x1A => "ExContextFailSilent",
        0x1B => "ExVirtualFunction",
        0x1C => "ExFinalFunction",
        0x1D => "ExIntConst",
        0x1E => "ExFloatConst",
        0x1F => "ExStringConst",
        0x20 => "ExObjectConst",
        0x21 => "ExNameConst",
        0x22 => "ExRotationConst",
        0x23 => "ExVectorConst",
        0x24 => "ExByteConst",
        0x25 => "ExIntZero",
        0x26 => "ExIntOne",
        0x27 => "ExTrue",
        0x28 => "ExFalse",
        0x29 => "ExTextConst",
        0x2A => "ExNoObject",
        0x2B => "ExTransformConst",
        0x2C => "ExIntConstByte",
        0x2D => "ExNoInterface",
        0x2E => "ExDynamicCast",
        0x2F => "ExStructConst",
        0x30 => "ExEndStructConst",
        0x31 => "ExSetArray",
        0x32 => "ExEndArray",
        0x33 => "ExPropertyConst",
        0x34 => "ExUnicodeStringConst",
        0x35 => "ExInt64Const",
        0x36 => "ExUInt64Const",
        0x38 => "ExPrimitiveCast",
        0x39 => "ExSetSet",
        0x3A => "ExEndSet",
        0x3B => "ExSetMap",
        0x3C => "ExEndMap",
        0x3D => "ExSetConst",
        0x3E => "ExEndSetConst",
        0x3F => "ExMapConst",
        0x40 => "ExEndMapConst",
        0x42 => "ExStructMemberContext",
        0x43 => "ExLetMulticastDelegate",
        0x44 => "ExLetDelegate",
        0x45 => "ExLocalVirtualFunction",
        0x46 => "ExLocalFinalFunction",
        0x48 => "ExLocalOutVariable",
        0x4A => "ExDeprecatedOp4A",
        0x4B => "ExInstanceDelegate",
        0x4C => "ExPushExecutionFlow",
        0x4D => "ExPopExecutionFlow",
        0x4E => "ExComputedJump",
        0x4F => "ExPopExecutionFlowIfNot",
        0x50 => "ExBreakpoint",
        0x51 => "ExInterfaceContext",
        0x52 => "ExObjToInterfaceCast",
        0x53 => "ExEndOfScript",
        0x54 => "ExCrossInterfaceCast",
        0x55 => "ExInterfaceToObjCast",
        0x5A => "ExWireTracepoint",
        0x5B => "ExSkipOffsetConst",
        0x5C => "ExAddMulticastDelegate",
        0x5D => "ExClearMulticastDelegate",
        0x5E => "ExTracepoint",
        0x5F => "ExLetObj",
        0x60 => "ExLetWeakObjPtr",
        0x61 => "ExBindDelegate",
        0x62 => "ExRemoveMulticastDelegate",
        0x63 => "ExCallMulticastDelegate",
        0x64 => "ExLetValueOnPersistentFrame",
        0x65 => "ExArrayConst",
        0x66 => "ExEndArrayConst",
        0x67 => "ExSoftObjectConst",
        0x68 => "ExCallMath",
        0x69 => "ExSwitchValue",
        0x6B => "ExArrayGetByRef",
        0x6C => "ExClassSparseDataVariable",
        0x6D => "ExFieldPathConst",
        _ => "Unknown",
    }
}

/// The character of hexadecimal digit `d`: `0` to `9`, then `A` to `F`.
pub open spec fn hex_digit_char(d: nat) -> char {
    if d < 10 {
        (d + 48) as char
    } else {
        (d + 55) as char
    }
}

/// The upper-case hexadecimal digits of `n`, without leading zeros.
pub open spec fn hex_digits(n: nat) -> Seq<char>
    decreases n,
{
    if n < 16 {
        seq![hex_digit_char(n)]
    } else {
        hex_digits(n / 16) + seq![hex_digit_char(n % 16)]
    }
}

/// The numbers of `s` in hexadecimal, separated by `, `.
pub open spec fn hex_joined(s: Seq<u8>) -> Seq<char>
    decreases s.len(),
{
    if s.len() == 0 {
        Seq::empty()
    } else if s.len() == 1 {
        hex_digits(s[0] as nat)
    } else {
        hex_joined(s.drop_last()) + ", "@ + hex_digits(s.last() as nat)
    }
}

/// The text of one hexadecimal digit.
fn hex_digit_text(d: u64) -> (r: &'static str)
    requires
        d < 16,
    ensures
        r@ == seq![hex_digit_char(d as nat)],
{
    if d < 10 {
        digit_text(d as usize)
    } else {
        match d {
            10 => {
                proof {
                    reveal_strlit("A");
                }
                "A"
            },
            11 => {
                proof {
                    reveal_strlit("B");
                }
                "B"
            },
            12 => {
                proof {
                    reveal_strlit("C");
                }
                "C"
            },
            13 => {
                proof {
                    reveal_strlit("D");
                }
                "D"
            },
            14 => {
                proof {
                    reveal_strlit("E");
                }
                "E"
            },
            _ => {
                proof {
                    reveal_strlit("F");
                }
                "F"
            },
        }
    }
}

/// A number in upper-case hexadecimal, as `{:X?}` writes it.
fn hex_number(x: u64) -> (r: String)
    ensures
        r@ == hex_digits(x as nat),
    decreases x,
{
    if x < 16 {
        String::from_str(hex_digit_text(x))
    } else {
        let mut r = hex_number(x / 16);
        r.append(hex_digit_text(x % 16));
        r
    }
}

/// Bytes as `{:X?}` writes them: in brackets, each in upper-case
/// hexadecimal, separated by `, `.
fn hex_bytes(bytes: &[u8]) -> (r: String)
    ensures
        r@ == "["@ + hex_joined(bytes@) + "]"@,
{
    let mut r = String::from_str("[");
    let mut i: usize = 0;
    proof {
        reveal_strlit("[");
    }
    assert(bytes@.subrange(0, 0) =~= Seq::<u8>::empty());
    while i < bytes.len()
        invariant
            i <= bytes@.len(),
            r@ == "["@ + hex_joined(bytes@.subrange(0, i as int)),
        decreases bytes@.len() - i,
    {
        let ghost prev = bytes@.subrange(0, i as int);
        let ghost next = bytes@.subrange(0, i + 1);
        assert(next.drop_last() =~= prev);
        if i > 0 {
            r.append(", ");
        }
        r.append(hex_number(bytes[i] as u64).as_str());
        i = i + 1;
        assert(r@ =~= "["@ + hex_joined(next));
    }
    assert(bytes@.subrange(0, i as int) =~= bytes@);
    r.append("]");
    r
}

/// What `format!("{:?}")` writes of a text: the text in double quotes, with
/// escapes.
pub uninterp spec fn debug_quoted_text(s: Seq<char>) -> Seq<char>;

/// What `String::from_utf16_lossy` makes of UTF-16 units.
pub uninterp spec fn utf16_lossy_text(units: Seq<u16>) -> Seq<char>;

/// Calls `format!("{:?}")` on a `str`. Claimed: the result depends on the
/// text alone. Left unsaid: how quotes and escapes are written.
#[verifier::external_body]
fn debug_quoted(s: &str) -> (r: String)
    ensures
        r@ == debug_quoted_text(s@),
{
    format!("{s:?}")
}

/// Calls `String::from_utf16_lossy`. Claimed: the result depends on the units
/// alone. Left unsaid: how units are decoded and what replaces invalid ones.
#[verifier::external_body]
fn utf16_lossy(units: &[u16]) -> (r: String)
    ensures
        r@ == utf16_lossy_text(units@),
{
    String::from_utf16_lossy(units)
}

/// A line with no lines under it counts one line, one level deep.
proof fn lemma_leaf(l: SourceLine)
    requires
        l.children@.len() == 0,
    ensures
        line_count(l) == 1,
        height(l) == 1,
{
    assert(line_count_all(l.children@) == 0);
    assert(height_all(l.children@) == 0);
}

/// `text` in `name(` and `)`.
fn wrapped(name: &str, text: String) -> (r: String)
    ensures
        r@ == name@ + "("@ + text@ + ")"@,
{
    let mut r = String::from_str(name);
    r.append("(");
    r.append(text.as_str());
    r.append(")");
    r
}

/// Adding a line under others adds its lines to theirs and keeps the deepest.
proof fn lemma_push_child(s: Seq<SourceLine>, l: SourceLine)
    ensures
        line_count_all(s.push(l)) == line_count_all(s) + line_count(l),
        height_all(s.push(l)) == if height_all(s) >= height(l) { height_all(s) } else { height(l) },
{
    assert(s.push(l).subrange(0, s.len() as int) =~= s);
}

/// An operand that the layout of its instruction admits.
pub open spec fn operand_ok(o: Operand) -> bool {
    match o {
        Operand::Fixed { bytes } => bytes@.len() >= 1,
        Operand::Nested { expr } => wf_expr(*expr),
        Operand::Text { text } => wf_text(*text),
        Operand::List { items, terminator, .. } => wf_items(items@, terminator),
    }
}

/// A line with a text alone.
pub open spec fn leaf(content: Seq<char>) -> LineModel {
    LineModel { index: None, prefix: None, content, children: Seq::empty() }
}

/// A line with a prefix in front of its text.
pub open spec fn prefixed(l: LineModel, prefix: Seq<char>) -> LineModel {
    LineModel { index: l.index, prefix: Some(prefix), content: l.content, children: l.children }
}

/// `text` in `name(` and `)`.
pub open spec fn wrapped_text(name: Seq<char>, text: Seq<char>) -> Seq<char> {
    name + "("@ + text + ")"@
}

/// The lines of the expression at offset `index`: a line labelled with the
/// offset and named by the instruction, with its operands under it; a string
/// constant shows its text quoted; a switch shows its index, its cases and its
/// default under it.
pub open spec fn expr_lines(e: Expr, index: int) -> LineModel
    decreases e,
{
    match e {
        Expr::Node { token, operands } => LineModel {
            index: Some(index as usize),
            prefix: None,
            content: token_text(token),
            children: operands_lines(operands@, index + 1),
        },
        Expr::StringConst { chars } => LineModel {
            index: Some(index as usize),
            prefix: None,
            content: wrapped_text("EX_StringConst"@, debug_quoted_text(utf8_lossy(chars@))),
            children: Seq::empty(),
        },
        Expr::UnicodeStringConst { units } => LineModel {
            index: Some(index as usize),
            prefix: None,
            content: wrapped_text("EX_UnicodeStringConst"@, debug_quoted_text(utf16_lossy_text(units@))),
            children: Seq::empty(),
        },
        Expr::SwitchValue { index_term, cases, default_term, .. } => LineModel {
            index: Some(index as usize),
            prefix: None,
            content: "EX_SwitchValue"@,
            children: seq![prefixed(expr_lines(*index_term, index + 7), "index = "@)] + cases_lines(
                cases@,
                index + 7 + ser_expr(*index_term).len(),
            ) + seq![
                prefixed(
                    expr_lines(
                        *default_term,
                        index + 7 + ser_expr(*index_term).len() + ser_cases(cases@).len(),
                    ),
                    "default = "@,
                ),
            ],
        },
    }
}

/// The lines of operands laid out one after the other from offset `index`.
pub open spec fn operands_lines(s: Seq<Operand>, index: int) -> Seq<LineModel>
    decreases s,
{
    if s.len() == 0 {
        Seq::empty()
    } else {
        let pre = s.subrange(0, s.len() - 1);
        operands_lines(pre, index).push(
            operand_lines(s[s.len() - 1], index + ser_operands(pre).len()),
        )
    }
}

/// The line of an operand at offset `index`: raw bytes in hexadecimal, a
/// nested expression, a text literal, or `list` with the items under it.
pub open spec fn operand_lines(o: Operand, index: int) -> LineModel
    decreases o,
{
    match o {
        Operand::Fixed { bytes } => leaf("["@ + hex_joined(bytes@) + "]"@),
        Operand::Nested { expr } => expr_lines(*expr, index),
        Operand::Text { text } => text_lines(*text, index),
        Operand::List { count, items, .. } => LineModel {
            index: None,
            prefix: None,
            content: "list"@,
            children: items_lines(items@, index + count_bytes(count).len()),
        },
    }
}

/// The lines of expressions laid out one after the other from offset `index`.
pub open spec fn items_lines(s: Seq<Expr>, index: int) -> Seq<LineModel>
    decreases s,
{
    if s.len() == 0 {
        Seq::empty()
    } else {
        let pre = s.subrange(0, s.len() - 1);
        items_lines(pre, index).push(expr_lines(s[s.len() - 1], index + ser_exprs(pre).len()))
    }
}

/// The lines of switch cases laid out one after the other from offset `index`.
pub open spec fn cases_lines(s: Seq<SwitchCase>, index: int) -> Seq<LineModel>
    decreases s,
{
    if s.len() == 0 {
        Seq::empty()
    } else {
        let pre = s.subrange(0, s.len() - 1);
        cases_lines(pre, index).push(case_lines(s[s.len() - 1], index + ser_cases(pre).len()))
    }
}

/// The line of a switch case at offset `index`: `case`, with its value and
/// its term under it.
pub open spec fn case_lines(c: SwitchCase, index: int) -> LineModel
    decreases c,
{
    LineModel {
        index: None,
        prefix: None,
        content: "case"@,
        children: seq![
            prefixed(expr_lines(c.value, index), "value = "@),
            prefixed(expr_lines(c.term, index + ser_expr(c.value).len() + 4), "term = "@),
        ],
    }
}

/// The line of a text literal at offset `index`: `FScriptText`, with its parts
/// under it.
pub open spec fn text_lines(t: ScriptText, index: int) -> LineModel
    decreases t,
{
    LineModel {
        index: None,
        prefix: None,
        content: "FScriptText"@,
        children: match t {
            ScriptText::Empty => Seq::empty(),
            ScriptText::LocalizedText { source, key, namespace } => seq![
                prefixed(expr_lines(source, index + 1), "localized_source = "@),
                prefixed(
                    expr_lines(key, index + 1 + ser_expr(source).len()),
                    "localized_key = "@,
                ),
                prefixed(
                    expr_lines(namespace, index + 1 + ser_expr(source).len() + ser_expr(key).len()),
                    "localized_namespace = "@,
                ),
            ],
            ScriptText::InvariantText { literal } => seq![
                prefixed(expr_lines(literal, index + 1), "invariant_literal_string = "@),
            ],
            ScriptText::LiteralString { literal } => seq![
                prefixed(expr_lines(literal, index + 1), "literal_string = "@),
            ],
            ScriptText::StringTableEntry { table } => seq![
                prefixed(leaf(wrapped_text("UObject"@, hex_digits(table as nat))), "string_table = "@),
            ],
        },
    }
}

/// The line with a prefix in front of its text.
fn prefixed_line(l: SourceLine, p: &str) -> (r: SourceLine)
    ensures
        line_model(r) == prefixed(line_model(l), p@),
        r.index == l.index,
        line_count(r) == line_count(l),
        height(r) == height(l),
{
    let ghost l0 = l;
    let r = l.prefix(String::from_str(p));
    assert(line_model(r) =~= prefixed(line_model(l0), p@));
    r
}

/// Lays out the expression at offset `index`: its lines, as [`expr_lines`]
/// gives them, and the offset right after its bytecode. It has no more lines
/// and no more depth than bytes.
pub fn format_expr(e: &Expr, index: usize) -> (r: (SourceLine, usize))
    requires
        wf_expr(*e),
        index + ser_expr(*e).len() <= usize::MAX,
    ensures
        r.1 == index + ser_expr(*e).len(),
        line_model(r.0) == expr_lines(*e, index as int),
        r.0.index == Some(index),
        line_count(r.0) <= ser_expr(*e).len(),
        height(r.0) <= ser_expr(*e).len(),
    decreases e,
{
    match e {
        Expr::Node { token, operands } => {
            let ghost kinds = token_layout(*token)->0;
            proof {
                lemma_layout_fixed_widths(*token);
            }
            let mut line = SourceLine::from_content(String::from_str(token_name(*token)));
            line.index = Some(index);
            let mut next = index + 1;
            let mut j: usize = 0;
            assert(operands@.subrange(0, 0) =~= Seq::<Operand>::empty());
            assert(line.children@ =~= Seq::<SourceLine>::empty());
            while j < operands.len()
                invariant
                    j <= operands@.len(),
                    wf_expr(*e),
                    *e == (Expr::Node { token: *token, operands: *operands }),
                    kinds == token_layout(*token)->0,
                    operands@.len() == kinds.len(),
                    wf_operands(operands@, kinds),
                    forall|m: int|
                        0 <= m < kinds.len() ==> ((#[trigger] kinds[m]) matches FieldKind::Fixed(n)
                            ==> n >= 1),
                    index + ser_expr(*e).len() <= usize::MAX,
                    ser_expr(*e) == seq![*token] + ser_operands(operands@),
                    next == index + 1 + ser_operands(operands@.subrange(0, j as int)).len(),
                    line.index == Some(index),
                    line.prefix is None,
                    line.content@ == token_text(*token),
                    line_models(line.children@) == operands_lines(operands@.subrange(0, j as int), index + 1),
                    line_count_all(line.children@) <= ser_operands(operands@.subrange(0, j as int)).len(),
                    height_all(line.children@) <= ser_operands(operands@.subrange(0, j as int)).len(),
                decreases operands@.len() - j,
            {
                proof {
                    lemma_wf_operands_at(operands@, kinds, j as int);
                    lemma_ser_operands_grow(operands@, j as int);
                    lemma_ser_operands_prefix(operands@, j + 1);
                }
                let (child, after) = format_operand(&operands[j], next);
                proof {
                    lemma_push_child(line.children@, child);
                    lemma_line_models_push(line.children@, child);
                }
                line.children.push(child);
                next = after;
                j = j + 1;
            }
            assert(operands@.subrange(0, j as int) =~= operands@);
            assert(line_model(line) =~= expr_lines(*e, index as int));
            (line, next)
        },
        Expr::StringConst { chars } => {
            let text = crate::pak::string_from_utf8_lossy(chars.as_slice());
            proof {
                reveal(utf8_lossy);
            }
            let mut line = SourceLine::from_content(wrapped("EX_StringConst", debug_quoted(text.as_str())));
            line.index = Some(index);
            proof {
                lemma_leaf(line);
            }
            assert(line_model(line) =~= expr_lines(*e, index as int));
            (line, index + chars.len() + 2)
        },
        Expr::UnicodeStringConst { units } => {
            proof {
                lemma_ser_units_len(units@);
            }
            let text = utf16_lossy(units.as_slice());
            let mut line = SourceLine::from_content(wrapped("EX_UnicodeStringConst", debug_quoted(text.as_str())));
            line.index = Some(index);
            proof {
                lemma_leaf(line);
            }
            assert(line_model(line) =~= expr_lines(*e, index as int));
            (line, index + 1 + 2 * units.len() + 2)
        },
        Expr::SwitchValue { end_goto_offset, index_term, cases, default_term } => {
            proof {
                lemma_le_bytes_len(cases@.len(), 2);
                lemma_le_bytes_len(*end_goto_offset as nat, 4);
            }
            let mut line = SourceLine::from_content(String::from_str("EX_SwitchValue"));
            line.index = Some(index);
            assert(line.children@ =~= Seq::<SourceLine>::empty());
            let (first, mut next) = format_expr(index_term, index + 7);
            let first = prefixed_line(first, "index = ");
            proof {
                lemma_push_child(line.children@, first);
                lemma_line_models_push(line.children@, first);
            }
            line.children.push(first);
            let ghost base = index + 7 + ser_expr(**index_term).len();
            let ghost head = seq![prefixed(expr_lines(**index_term, index + 7), "index = "@)];
            let mut j: usize = 0;
            assert(cases@.subrange(0, 0) =~= Seq::<SwitchCase>::empty());
            assert(line_models(line.children@) =~= head + cases_lines(cases@.subrange(0, 0), base));
            while j < cases.len()
                invariant
                    j <= cases@.len(),
                    *e == (Expr::SwitchValue {
                        end_goto_offset: *end_goto_offset,
                        index_term: *index_term,
                        cases: *cases,
                        default_term: *default_term,
                    }),
                    wf_cases(cases@),
                    base == index + 7 + ser_expr(**index_term).len(),
                    index + ser_expr(*e).len() <= usize::MAX,
                    ser_expr(*e).len() == 7 + ser_expr(**index_term).len() + ser_cases(cases@).len()
                        + ser_expr(**default_term).len(),
                    next == base + ser_cases(cases@.subrange(0, j as int)).len(),
                    line.index == Some(index),
                    line.prefix is None,
                    line.content@ == "EX_SwitchValue"@,
                    line_models(line.children@) == head + cases_lines(cases@.subrange(0, j as int), base),
                    line_count_all(line.children@) <= ser_expr(**index_term).len() + ser_cases(
                        cases@.subrange(0, j as int),
                    ).len(),
                    height_all(line.children@) <= ser_expr(**index_term).len() + ser_cases(
                        cases@.subrange(0, j as int),
                    ).len(),
                decreases cases@.len() - j,
            {
                proof {
                    lemma_wf_cases_at(cases@, j as int);
                    lemma_ser_cases_grow(cases@, j as int);
                    lemma_ser_cases_prefix(cases@, j + 1);
                }
                let (case_line, after) = format_case(&cases[j], next);
                proof {
                    lemma_push_child(line.children@, case_line);
                    lemma_line_models_push(line.children@, case_line);
                    assert(head + cases_lines(cases@.subrange(0, j + 1), base) =~= (head + cases_lines(
                        cases@.subrange(0, j as int),
                        base,
                    )).push(line_model(case_line)));
                }
                line.children.push(case_line);
                next = after;
                j = j + 1;
            }
            assert(cases@.subrange(0, j as int) =~= cases@);
            let (last, end) = format_expr(default_term, next);
            let last = prefixed_line(last, "default = ");
            proof {
                lemma_push_child(line.children@, last);
                lemma_line_models_push(line.children@, last);
            }
            line.children.push(last);
            assert(line_models(line.children@) =~= expr_lines(*e, index as int).children);
            assert(line_model(line) =~= expr_lines(*e, index as int));
            (line, end)
        },
    }
}

/// Lays out a switch case at `index`: a `case` line with its value and term.
fn format_case(c: &SwitchCase, index: usize) -> (r: (SourceLine, usize))
    requires
        wf_expr(c.value),
        wf_expr(c.term),
        index + ser_case(*c).len() <= usize::MAX,
    ensures
        r.1 == index + ser_case(*c).len(),
        line_model(r.0) == case_lines(*c, index as int),
        line_count(r.0) <= ser_case(*c).len(),
        height(r.0) <= ser_case(*c).len(),
    decreases c,
{
    proof {
        lemma_le_bytes_len(c.next_offset as nat, 4);
    }
    let mut line = SourceLine::from_content(String::from_str("case"));
    assert(line.children@ =~= Seq::<SourceLine>::empty());
    let (value, next) = format_expr(&c.value, index);
    let value = prefixed_line(value, "value = ");
    proof {
        lemma_push_child(line.children@, value);
        lemma_line_models_push(line.children@, value);
    }
    line.children.push(value);
    let (term, end) = format_expr(&c.term, next + 4);
    let term = prefixed_line(term, "term = ");
    proof {
        lemma_push_child(line.children@, term);
        lemma_line_models_push(line.children@, term);
    }
    line.children.push(term);
    assert(line_models(Seq::<SourceLine>::empty()) =~= Seq::<LineModel>::empty());
    assert(line_models(line.children@) =~= case_lines(*c, index as int).children);
    assert(line.content@ =~= "case"@);
    assert(line_model(line) =~= case_lines(*c, index as int));
    (line, end)
}

/// Lays out an operand at `index`, and gives the offset right after it.
fn format_operand(o: &Operand, index: usize) -> (r: (SourceLine, usize))
    requires
        operand_ok(*o),
        index + ser_operand(*o).len() <= usize::MAX,
    ensures
        r.1 == index + ser_operand(*o).len(),
        line_model(r.0) == operand_lines(*o, index as int),
        line_count(r.0) <= ser_operand(*o).len(),
        height(r.0) <= ser_operand(*o).len(),
    decreases o,
{
    match o {
        Operand::Fixed { bytes } => {
            let line = SourceLine::from_content(hex_bytes(bytes.as_slice()));
            proof {
                lemma_leaf(line);
            }
            assert(line_model(line) =~= operand_lines(*o, index as int));
            (line, index + bytes.len())
        },
        Operand::Nested { expr } => format_expr(expr, index),
        Operand::Text { text } => format_text(text, index),
        Operand::List { count, items, terminator } => {
            let mut line = SourceLine::from_content(String::from_str("list"));
            assert(line.children@ =~= Seq::<SourceLine>::empty());
            let mut next = index;
            if count.is_some() {
                proof {
                    lemma_le_bytes_len(count->0 as nat, 4);
                }
                next = next + 4;
            }
            let ghost base = next;
            let mut j: usize = 0;
            assert(items@.subrange(0, 0) =~= Seq::<Expr>::empty());
            while j < items.len()
                invariant
                    j <= items@.len(),
                    *o == (Operand::List { count: *count, items: *items, terminator: *terminator }),
                    wf_items(items@, *terminator),
                    base == index + count_bytes(*count).len(),
                    index + ser_operand(*o).len() <= usize::MAX,
                    ser_operand(*o) == count_bytes(*count) + ser_exprs(items@) + seq![*terminator],
                    next == base + ser_exprs(items@.subrange(0, j as int)).len(),
                    line.index is None,
                    line.prefix is None,
                    line.content@ == "list"@,
                    line_models(line.children@) == items_lines(items@.subrange(0, j as int), base as int),
                    line_count_all(line.children@) <= ser_exprs(items@.subrange(0, j as int)).len(),
                    height_all(line.children@) <= ser_exprs(items@.subrange(0, j as int)).len(),
                decreases items@.len() - j,
            {
                proof {
                    lemma_wf_items_at(items@, *terminator, j as int);
                    lemma_ser_exprs_grow(items@, j as int);
                    lemma_ser_exprs_prefix(items@, j + 1);
                }
                let (child, after) = format_expr(&items[j], next);
                proof {
                    lemma_push_child(line.children@, child);
                    lemma_line_models_push(line.children@, child);
                }
                line.children.push(child);
                next = after;
                j = j + 1;
            }
            assert(items@.subrange(0, j as int) =~= items@);
            assert(line_model(line) =~= operand_lines(*o, index as int));
            (line, next + 1)
        },
    }
}

/// Lays out a text literal at `index`.
#[verifier::rlimit(40)]
fn format_text(t: &ScriptText, index: usize) -> (r: (SourceLine, usize))
    requires
        wf_text(*t),
        index + ser_text(*t).len() <= usize::MAX,
    ensures
        r.1 == index + ser_text(*t).len(),
        line_model(r.0) == text_lines(*t, index as int),
        line_count(r.0) <= ser_text(*t).len(),
        height(r.0) <= ser_text(*t).len(),
    decreases t,
{
    let mut line = SourceLine::from_content(String::from_str("FScriptText"));
    assert(line.children@ =~= Seq::<SourceLine>::empty());
    assert(line_models(line.children@) =~= Seq::<LineModel>::empty());
    match t {
        ScriptText::Empty => {
            proof {
                lemma_leaf(line);
            }
            assert(line_model(line) =~= text_lines(*t, index as int));
            (line, index + 1)
        },
        ScriptText::LocalizedText { source, key, namespace } => {
            let (a, n1) = format_expr(source, index + 1);
            let a = prefixed_line(a, "localized_source = ");
            proof {
                lemma_push_child(line.children@, a);
                lemma_line_models_push(line.children@, a);
            }
            line.children.push(a);
            let (b, n2) = format_expr(key, n1);
            let b = prefixed_line(b, "localized_key = ");
            proof {
                lemma_push_child(line.children@, b);
                lemma_line_models_push(line.children@, b);
            }
            line.children.push(b);
            let (c, n3) = format_expr(namespace, n2);
            let c = prefixed_line(c, "localized_namespace = ");
            proof {
                lemma_push_child(line.children@, c);
                lemma_line_models_push(line.children@, c);
            }
            line.children.push(c);
            assert(line_models(line.children@) =~= text_lines(*t, index as int).children);
            assert(line_model(line) =~= text_lines(*t, index as int));
            (line, n3)
        },
        ScriptText::InvariantText { literal } => {
            let (a, n1) = format_expr(literal, index + 1);
            let a = prefixed_line(a, "invariant_literal_string = ");
            proof {
                lemma_push_child(line.children@, a);
                lemma_line_models_push(line.children@, a);
            }
            line.children.push(a);
            assert(line_model(line) =~= text_lines(*t, index as int));
            (line, n1)
        },
        ScriptText::LiteralString { literal } => {
            let (a, n1) = format_expr(literal, index + 1);
            let a = prefixed_line(a, "literal_string = ");
            proof {
                lemma_push_child(line.children@, a);
                lemma_line_models_push(line.children@, a);
            }
            line.children.push(a);
            assert(line_model(line) =~= text_lines(*t, index as int));
            (line, n1)
        },
        ScriptText::StringTableEntry { table } => {
            proof {
                lemma_le_bytes_len(*table as nat, 8);
            }
            let leaf_line = SourceLine::from_content(wrapped("UObject", hex_number(*table)));
            proof {
                lemma_leaf(leaf_line);
            }
            let a = prefixed_line(leaf_line, "string_table = ");
            proof {
                lemma_leaf(a);
                lemma_push_child(line.children@, a);
                lemma_line_models_push(line.children@, a);
            }
            line.children.push(a);
            assert(line_model(line) =~= text_lines(*t, index as int));
            (line, index + 9)
        },
    }
}

proof fn lemma_ser_operands_grow(s: Seq<Operand>, j: int)
    requires
        0 <= j < s.len(),
    ensures
        s.subrange(0, j + 1).subrange(0, j) == s.subrange(0, j),
        ser_operands(s.subrange(0, j + 1)) == ser_operands(s.subrange(0, j)) + ser_operand(s[j]),
{
    assert(s.subrange(0, j + 1).subrange(0, j) =~= s.subrange(0, j));
}

proof fn lemma_ser_exprs_grow(s: Seq<Expr>, j: int)
    requires
        0 <= j < s.len(),
    ensures
        s.subrange(0, j + 1).subrange(0, j) == s.subrange(0, j),
        ser_exprs(s.subrange(0, j + 1)) == ser_exprs(s.subrange(0, j)) + ser_expr(s[j]),
{
    assert(s.subrange(0, j + 1).subrange(0, j) =~= s.subrange(0, j));
}

proof fn lemma_ser_cases_grow(s: Seq<SwitchCase>, j: int)
    requires
        0 <= j < s.len(),
    ensures
        s.subrange(0, j + 1).subrange(0, j) == s.subrange(0, j),
        ser_cases(s.subrange(0, j + 1)) == ser_cases(s.subrange(0, j)) + ser_case(s[j]),
{
    assert(s.subrange(0, j + 1).subrange(0, j) =~= s.subrange(0, j));
}

/// The offsets of a script listing: each expression lies within the script,
/// and the next one starts right after it.
pub open spec fn offsets_ok(v: Seq<(usize, Expr)>, len: nat) -> bool {
    forall|m: int|
        0 <= m < v.len() ==> wf_expr(#[trigger] v[m].1) && v[m].0 + ser_expr(v[m].1).len() <= len
            && (m + 1 < v.len() ==> v[m].0 + ser_expr(v[m].1).len() == v[m + 1].0)
}

/// In a listing that reading a script gives, the expression at `m` lies
/// within the script and the next one starts right after it.
proof fn lemma_listing_offset_at(v: Seq<(usize, Expr)>, b: Seq<u8>, m: int)
    requires
        ser_exprs(listing_exprs(v)) == b,
        forall|i: int|
            0 <= i < v.len() ==> wf_expr(#[trigger] v[i].1) && v[i].0 == ser_exprs(
                listing_exprs(v).subrange(0, i),
            ).len(),
        0 <= m < v.len(),
    ensures
        v[m].0 + ser_expr(v[m].1).len() <= b.len(),
        m + 1 < v.len() ==> v[m].0 + ser_expr(v[m].1).len() == v[m + 1].0,
{
    let exprs = listing_exprs(v);
    assert(wf_expr(v[m].1));
    assert(exprs[m] == v[m].1);
    lemma_ser_exprs_grow(exprs, m);
    lemma_ser_exprs_prefix(exprs, m + 1);
    if m + 1 < v.len() {
        assert(wf_expr(v[m + 1].1));
    }
}

/// The listing that reading a script gives has its offsets in order.
#[verifier::rlimit(30)]
proof fn lemma_listing_offsets(v: Seq<(usize, Expr)>, b: Seq<u8>)
    requires
        ser_exprs(listing_exprs(v)) == b,
        forall|i: int|
            0 <= i < v.len() ==> wf_expr(#[trigger] v[i].1) && v[i].0 == ser_exprs(
                listing_exprs(v).subrange(0, i),
            ).len(),
    ensures
        offsets_ok(v, b.len()),
{
    assert forall|m: int| 0 <= m < v.len() implies wf_expr(#[trigger] v[m].1) && v[m].0 + ser_expr(
        v[m].1,
    ).len() <= b.len() && (m + 1 < v.len() ==> v[m].0 + ser_expr(v[m].1).len() == v[m + 1].0) by {
        lemma_listing_offset_at(v, b, m);
    }
}

/// The lines of a script listing: the lines of each expression at its offset.
pub open spec fn listing_lines(v: Seq<(usize, Expr)>) -> Seq<LineModel> {
    v.map_values(|x: (usize, Expr)| expr_lines(x.1, x.0 as int))
}

/// `v` is what reading the script `bytes` gives: its expressions, one after
/// the other, are the bytes, and each is well formed and paired with the
/// offset where it starts.
pub open spec fn script_read_as(bytes: Seq<u8>, v: Seq<(usize, Expr)>) -> bool {
    &&& ser_exprs(listing_exprs(v)) == bytes
    &&& forall|i: int|
        0 <= i < v.len() ==> wf_expr(#[trigger] v[i].1) && v[i].0 == ser_exprs(
            listing_exprs(v).subrange(0, i),
        ).len()
}

/// Writes the lines of the expressions of a script listing, one after the
/// other: the listing's text is theirs, and each offset's line is where its
/// line was written.
fn write_listing(listing: &Vec<(usize, Expr)>, len: usize) -> (r: (Source, Ghost<Seq<SourceLine>>))
    requires
        offsets_ok(listing@, len as nat),
        listing@.len() > 0 ==> listing@[0].0 == 0,
    ensures
        line_models(r.1@) == listing_lines(listing@),
        r.0.content@ == rendered_all(r.1@, 0),
        r.0.index_to_line@ == numbered_all(Map::empty(), r.1@, 0),
        forall|m: int| 0 <= m < listing@.len() ==> #[trigger] r.0.index_to_line@.contains_key(listing@[m].0),
{
    let mut out = SourceCollector::new();
    let ghost mut ls: Seq<SourceLine> = Seq::empty();
    let mut i: usize = 0;
    assert(listing@.subrange(0, 0) =~= Seq::<(usize, Expr)>::empty());
    assert(line_models(ls) =~= Seq::<LineModel>::empty());
    assert(listing_lines(listing@.subrange(0, 0)) =~= Seq::<LineModel>::empty());
    while i < listing.len()
        invariant
            i <= listing@.len(),
            offsets_ok(listing@, len as nat),
            i < listing@.len() ==> out.line <= listing@[i as int].0,
            out.line == line_count_all(ls),
            line_models(ls) == listing_lines(listing@.subrange(0, i as int)),
            out.source.content@ == rendered_all(ls, 0),
            out.source.index_to_line@ == numbered_all(Map::empty(), ls, 0),
            forall|m: int| 0 <= m < i ==> #[trigger] out.source.index_to_line@.contains_key(listing@[m].0),
        decreases listing@.len() - i,
    {
        let offset = listing[i].0;
        assert(wf_expr(listing@[i as int].1));
        let (line, _next) = format_expr(&listing[i].1, offset);
        let ghost before = out.source.index_to_line@;
        let ghost written = out.line;
        line.write(&mut out, 0);
        proof {
            lemma_numbered_records(before, line, written as nat);
            assert forall|m: int| 0 <= m < i + 1 implies #[trigger] out.source.index_to_line@.contains_key(
                listing@[m].0,
            ) by {
                if m < i {
                    lemma_numbered_keeps(before, line, written as nat, listing@[m].0);
                }
            }
            lemma_rendered_push(ls, line, Map::empty());
            lemma_line_models_push(ls, line);
            assert(listing_lines(listing@.subrange(0, i + 1)) =~= listing_lines(
                listing@.subrange(0, i as int),
            ).push(expr_lines(listing@[i as int].1, offset as int)));
            ls = ls.push(line);
        }
        i = i + 1;
    }
    assert(listing@.subrange(0, i as int) =~= listing@);
    (out.source, Ghost(ls))
}

/// The listing of a function's bytecode: the lines of each expression at its
/// offset ([`listing_lines`] of the script as read), written one after the
/// other from line 1. It fails where reading the script does, with its error.
pub fn disassemble(bytes: &[u8]) -> (r: Result<Source, KismetError>)
    ensures
        match scan_script(bytes@, 0) {
            Ok(()) => r matches Ok(src) && exists|v: Seq<(usize, Expr)>, ls: Seq<SourceLine>|
                #![trigger script_read_as(bytes@, v), line_models(ls)]
                script_read_as(bytes@, v) && line_models(ls) == listing_lines(v)
                    && src.content@ == rendered_all(ls, 0)
                    && src.index_to_line@ == numbered_all(Map::empty(), ls, 0)
                    && forall|i: int| 0 <= i < v.len() ==> #[trigger] src.index_to_line@.contains_key(v[i].0),
            Err(err) => r == Err::<Source, KismetError>(err),
        },
{
    match read_script(bytes) {
        Ok(listing) => {
            proof {
                lemma_listing_offsets(listing@, bytes@);
                if listing@.len() > 0 {
                    assert(listing_exprs(listing@).subrange(0, 0) =~= Seq::<Expr>::empty());
                    assert(wf_expr(listing@[0].1));
                    assert(listing@[0].0 == 0);
                }
            }
            let (src, lines) = write_listing(&listing, bytes.len());
            proof {
                assert(script_read_as(bytes@, listing@));
                assert(line_models(lines@) == listing_lines(listing@));
            }
            Ok(src)
        },
        Err(e) => Err(e),
    }
}

} // verus!
