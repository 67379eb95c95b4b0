//! The bytecode of a well-formed expression determines it: two well-formed
//! expressions whose bytecode starts the same byte string are the same
//! expression, so reading gives back exactly what was there.

use vstd::prelude::*;
use super::{
    Expr, Operand, ScriptText, SwitchCase, FieldKind, ser_expr, ser_operands, ser_operand,
    ser_exprs, ser_text, ser_cases, ser_case, ser_units, count_bytes, wf_expr, wf_operands,
    wf_operand, wf_items, wf_text, wf_cases, expr_token, token_layout, lemma_split,
    lemma_ser_operands_front, lemma_ser_exprs_front, lemma_ser_cases_front, lemma_wf_operands_at,
    lemma_wf_items_at, lemma_wf_cases_at, lemma_ser_expr_token, lemma_ser_units_at,
    lemma_ser_units_len, lemma_layout_terminators, lemma_scan_expr, lemma_scan_operand,
};
use crate::wire::{le_bytes, le_value, lemma_le_bytes_len, lemma_le_roundtrip_widths};

verus! {

/// Two expressions are the same: the same variant, the same token, fixed
/// bytes, strings and numbers, and the same parts, part by part.
pub open spec fn same_expr(a: Expr, b: Expr) -> bool
    decreases a,
{
    match a {
        Expr::Node { token, operands } => b matches Expr::Node { token: t2, operands: o2 }
            && token == t2 && same_operands(operands@, o2@),
        Expr::StringConst { chars } => b matches Expr::StringConst { chars: c2 } && chars@ == c2@,
        Expr::UnicodeStringConst { units } => b matches Expr::UnicodeStringConst { units: u2 }
            && units@ == u2@,
        Expr::SwitchValue { end_goto_offset, index_term, cases, default_term } => b matches Expr::SwitchValue {
            end_goto_offset: g2,
            index_term: i2,
            cases: c2,
            default_term: d2,
        } && end_goto_offset == g2 && same_expr(*index_term, *i2) && same_cases(cases@, c2@)
            && same_expr(*default_term, *d2),
    }
}

/// Two sequences of operands are the same, operand by operand.
pub open spec fn same_operands(s: Seq<Operand>, t: Seq<Operand>) -> bool
    decreases s,
{
    if s.len() == 0 {
        t.len() == 0
    } else {
        t.len() == s.len() && same_operands(s.subrange(0, s.len() - 1), t.subrange(0, t.len() - 1))
            && same_operand(s[s.len() - 1], t[t.len() - 1])
    }
}

/// Two operands are the same.
pub open spec fn same_operand(a: Operand, b: Operand) -> bool
    decreases a,
{
    match a {
        Operand::Fixed { bytes } => b matches Operand::Fixed { bytes: b2 } && bytes@ == b2@,
        Operand::Nested { expr } => b matches Operand::Nested { expr: e2 } && same_expr(*expr, *e2),
        Operand::Text { text } => b matches Operand::Text { text: t2 } && same_text(*text, *t2),
        Operand::List { count, items, terminator } => b matches Operand::List {
            count: c2,
            items: i2,
            terminator: t2,
        } && count == c2 && terminator == t2 && same_exprs(items@, i2@),
    }
}

/// Two sequences of expressions are the same, expression by expression.
pub open spec fn same_exprs(s: Seq<Expr>, t: Seq<Expr>) -> bool
    decreases s,
{
    if s.len() == 0 {
        t.len() == 0
    } else {
        t.len() == s.len() && same_exprs(s.subrange(0, s.len() - 1), t.subrange(0, t.len() - 1))
            && same_expr(s[s.len() - 1], t[t.len() - 1])
    }
}

/// Two text literals are the same.
pub open spec fn same_text(a: ScriptText, b: ScriptText) -> bool
    decreases a,
{
    match a {
        ScriptText::Empty => b is Empty,
        ScriptText::LocalizedText { source, key, namespace } => b matches ScriptText::LocalizedText {
            source: s2,
            key: k2,
            namespace: n2,
        } && same_expr(source, s2) && same_expr(key, k2) && same_expr(namespace, n2),
        ScriptText::InvariantText { literal } => b matches ScriptText::InvariantText {
            literal: l2,
        } && same_expr(literal, l2),
        ScriptText::LiteralString { literal } => b matches ScriptText::LiteralString {
            literal: l2,
        } && same_expr(literal, l2),
        ScriptText::StringTableEntry { table } => b matches ScriptText::StringTableEntry {
            table: t2,
        } && table == t2,
    }
}

/// Two sequences of switch cases are the same, case by case.
pub open spec fn same_cases(s: Seq<SwitchCase>, t: Seq<SwitchCase>) -> bool
    decreases s,
{
    if s.len() == 0 {
        t.len() == 0
    } else {
        t.len() == s.len() && same_cases(s.subrange(0, s.len() - 1), t.subrange(0, t.len() - 1))
            && same_case(s[s.len() - 1], t[t.len() - 1])
    }
}

/// Two switch cases are the same.
pub open spec fn same_case(a: SwitchCase, b: SwitchCase) -> bool
    decreases a,
{
    same_expr(a.value, b.value) && a.next_offset == b.next_offset && same_expr(a.term, b.term)
}


proof fn lemma_same_operands_all(s: Seq<Operand>, t: Seq<Operand>)
    requires
        s.len() == t.len(),
        forall|j: int| 0 <= j < s.len() ==> #[trigger] same_operand(s[j], t[j]),
    ensures
        same_operands(s, t),
    decreases s.len(),
{
    if s.len() > 0 {
        let s1 = s.subrange(0, s.len() - 1);
        let t1 = t.subrange(0, t.len() - 1);
        assert forall|j: int| 0 <= j < s1.len() implies #[trigger] same_operand(s1[j], t1[j]) by {
            assert(same_operand(s[j], t[j]));
        }
        lemma_same_operands_all(s1, t1);
        assert(same_operand(s[s.len() - 1], t[t.len() - 1]));
    }
}

proof fn lemma_same_exprs_all(s: Seq<Expr>, t: Seq<Expr>)
    requires
        s.len() == t.len(),
        forall|j: int| 0 <= j < s.len() ==> #[trigger] same_expr(s[j], t[j]),
    ensures
        same_exprs(s, t),
    decreases s.len(),
{
    if s.len() > 0 {
        let s1 = s.subrange(0, s.len() - 1);
        let t1 = t.subrange(0, t.len() - 1);
        assert forall|j: int| 0 <= j < s1.len() implies #[trigger] same_expr(s1[j], t1[j]) by {
            assert(same_expr(s[j], t[j]));
        }
        lemma_same_exprs_all(s1, t1);
        assert(same_expr(s[s.len() - 1], t[t.len() - 1]));
    }
}

proof fn lemma_same_cases_all(s: Seq<SwitchCase>, t: Seq<SwitchCase>)
    requires
        s.len() == t.len(),
        forall|j: int| 0 <= j < s.len() ==> #[trigger] same_case(s[j], t[j]),
    ensures
        same_cases(s, t),
    decreases s.len(),
{
    if s.len() > 0 {
        let s1 = s.subrange(0, s.len() - 1);
        let t1 = t.subrange(0, t.len() - 1);
        assert forall|j: int| 0 <= j < s1.len() implies #[trigger] same_case(s1[j], t1[j]) by {
            assert(same_case(s[j], t[j]));
        }
        lemma_same_cases_all(s1, t1);
        assert(same_case(s[s.len() - 1], t[t.len() - 1]));
    }
}

/// Equal little-endian encodings of two numbers that fit in them are of equal numbers.
proof fn lemma_le_bytes_inj(x: nat, y: nat, n: nat)
    requires
        n == 2 || n == 4 || n == 8,
        n == 2 ==> x < 0x1_0000 && y < 0x1_0000,
        n == 4 ==> x < 0x1_0000_0000 && y < 0x1_0000_0000,
        n == 8 ==> x < 0x1_0000_0000_0000_0000 && y < 0x1_0000_0000_0000_0000,
        le_bytes(x, n) == le_bytes(y, n),
    ensures
        x == y,
{
    lemma_le_roundtrip_widths(x);
    lemma_le_roundtrip_widths(y);
}

/// Two well-formed expressions whose bytecode both start at `p` in `b` are the
/// same, with the same bytecode.
#[verifier::spinoff_prover]
pub proof fn lemma_unique_expr(e1: Expr, e2: Expr, b: Seq<u8>, p: int)
    requires
        wf_expr(e1),
        wf_expr(e2),
        0 <= p,
        p + ser_expr(e1).len() <= b.len(),
        b.subrange(p, p + ser_expr(e1).len()) == ser_expr(e1),
        p + ser_expr(e2).len() <= b.len(),
        b.subrange(p, p + ser_expr(e2).len()) == ser_expr(e2),
    ensures
        same_expr(e1, e2),
        ser_expr(e1) == ser_expr(e2),
    decreases e1, 0int,
{
    lemma_scan_expr(e1, b, p);
    lemma_scan_expr(e2, b, p);
    let x = ser_expr(e1);
    assert(x == ser_expr(e2));
    lemma_ser_expr_token(e1);
    lemma_ser_expr_token(e2);
    match e1 {
        Expr::Node { token, operands } => {
            match e2 {
                Expr::Node { token: t2, operands: o2 } => {
                    let kinds = token_layout(token)->0;
                    lemma_layout_terminators(token);
                    let s1 = operands@;
                    let s2 = o2@;
                    lemma_split(b, p, seq![token], ser_operands(s1));
                    lemma_split(b, p, seq![token], ser_operands(s2));
                    assert(s1.subrange(0, s1.len() as int) =~= s1);
                    assert(s2.subrange(0, s2.len() as int) =~= s2);
                    lemma_unique_operands(s1, s2, kinds, b, p + 1, 0);
                    lemma_same_operands_all(s1, s2);
                },
                _ => {},
            }
        },
        Expr::StringConst { chars } => {
            match e2 {
                Expr::StringConst { chars: c2 } => {
                    assert(chars@ =~= x.subrange(1, x.len() - 1));
                    assert(c2@ =~= x.subrange(1, x.len() - 1));
                },
                _ => {},
            }
        },
        Expr::UnicodeStringConst { units } => {
            match e2 {
                Expr::UnicodeStringConst { units: u2 } => {
                    lemma_ser_units_len(units@);
                    lemma_ser_units_len(u2@);
                    assert(ser_units(units@) =~= x.subrange(1, x.len() - 2));
                    assert(ser_units(u2@) =~= x.subrange(1, x.len() - 2));
                    assert forall|j: int| 0 <= j < units@.len() implies units@[j] == u2@[j] by {
                        lemma_ser_units_at(units@, j);
                        lemma_ser_units_at(u2@, j);
                        lemma_le_bytes_inj(units@[j] as nat, u2@[j] as nat, 2);
                    }
                    assert(units@ =~= u2@);
                },
                _ => {},
            }
        },
        Expr::SwitchValue { end_goto_offset, index_term, cases, default_term } => {
            match e2 {
                Expr::SwitchValue {
                    end_goto_offset: g2,
                    index_term: i2,
                    cases: c2,
                    default_term: d2,
                } => {
                    let tok = seq![super::TOKEN_SWITCH_VALUE];
                    let n1 = cases@.len();
                    let n2 = c2@.len();
                    lemma_le_bytes_len(n1, 2);
                    lemma_le_bytes_len(n2, 2);
                    lemma_le_bytes_len(end_goto_offset as nat, 4);
                    lemma_le_bytes_len(g2 as nat, 4);
                    let xi1 = ser_expr(*index_term);
                    let xc1 = ser_cases(cases@);
                    let xd1 = ser_expr(*default_term);
                    let xi2 = ser_expr(*i2);
                    let xc2 = ser_cases(c2@);
                    let xd2 = ser_expr(*d2);
                    let nb1 = le_bytes(n1, 2);
                    let nb2 = le_bytes(n2, 2);
                    let ob1 = le_bytes(end_goto_offset as nat, 4);
                    let ob2 = le_bytes(g2 as nat, 4);
                    assert(x == tok + nb1 + ob1 + xi1 + xc1 + xd1);
                    assert(x == tok + nb2 + ob2 + xi2 + xc2 + xd2);
                    lemma_split(b, p, tok + nb1 + ob1 + xi1 + xc1, xd1);
                    lemma_split(b, p, tok + nb1 + ob1 + xi1, xc1);
                    lemma_split(b, p, tok + nb1 + ob1, xi1);
                    lemma_split(b, p, tok + nb1, ob1);
                    lemma_split(b, p, tok, nb1);
                    lemma_split(b, p, tok + nb2 + ob2 + xi2 + xc2, xd2);
                    lemma_split(b, p, tok + nb2 + ob2 + xi2, xc2);
                    lemma_split(b, p, tok + nb2 + ob2, xi2);
                    lemma_split(b, p, tok + nb2, ob2);
                    lemma_split(b, p, tok, nb2);
                    lemma_le_bytes_inj(n1, n2, 2);
                    lemma_le_bytes_inj(end_goto_offset as nat, g2 as nat, 4);
                    lemma_unique_expr(*index_term, *i2, b, p + 7);
                    let q2 = p + 7 + xi1.len();
                    assert(cases@.subrange(0, n1 as int) =~= cases@);
                    assert(c2@.subrange(0, n2 as int) =~= c2@);
                    lemma_unique_cases(cases@, c2@, b, q2, 0);
                    lemma_same_cases_all(cases@, c2@);
                    let q3 = q2 + xc1.len();
                    lemma_unique_expr(*default_term, *d2, b, q3);
                },
                _ => {},
            }
        },
    }
}

/// Two well-formed sequences of operands of the same layout, whose bytecode
/// from operand `i` on both start at `q`, are the same from `i` on.
proof fn lemma_unique_operands(
    s1: Seq<Operand>,
    s2: Seq<Operand>,
    kinds: Seq<FieldKind>,
    b: Seq<u8>,
    q: int,
    i: int,
)
    requires
        wf_operands(s1, kinds),
        wf_operands(s2, kinds),
        s1.len() == kinds.len(),
        s2.len() == kinds.len(),
        forall|j: int|
            0 <= j < kinds.len() ==> ((#[trigger] kinds[j]) matches FieldKind::List {
                terminator,
                ..
            } ==> token_layout(terminator) == Some(Seq::<FieldKind>::empty())),
        0 <= i <= s1.len(),
        0 <= q,
        q + ser_operands(s1.subrange(i, s1.len() as int)).len() <= b.len(),
        b.subrange(q, q + ser_operands(s1.subrange(i, s1.len() as int)).len()) == ser_operands(
            s1.subrange(i, s1.len() as int),
        ),
        q + ser_operands(s2.subrange(i, s2.len() as int)).len() <= b.len(),
        b.subrange(q, q + ser_operands(s2.subrange(i, s2.len() as int)).len()) == ser_operands(
            s2.subrange(i, s2.len() as int),
        ),
    ensures
        forall|j: int| i <= j < s1.len() ==> #[trigger] same_operand(s1[j], s2[j]),
    decreases s1, s1.len() - i,
{
    if i < s1.len() {
        lemma_ser_operands_front(s1, i);
        lemma_ser_operands_front(s2, i);
        let a1 = ser_operand(s1[i]);
        let r1 = ser_operands(s1.subrange(i + 1, s1.len() as int));
        let a2 = ser_operand(s2[i]);
        let r2 = ser_operands(s2.subrange(i + 1, s2.len() as int));
        lemma_split(b, q, a1, r1);
        lemma_split(b, q, a2, r2);
        lemma_wf_operands_at(s1, kinds, i);
        lemma_wf_operands_at(s2, kinds, i);
        lemma_unique_operand(s1[i], s2[i], kinds[i], b, q);
        lemma_unique_operands(s1, s2, kinds, b, q + a1.len(), i + 1);
    }
}

/// Two well-formed operands of kind `k` whose bytecode both start at `q` are the same.
proof fn lemma_unique_operand(o1: Operand, o2: Operand, k: FieldKind, b: Seq<u8>, q: int)
    requires
        wf_operand(o1, k),
        wf_operand(o2, k),
        k matches FieldKind::List { terminator, .. } ==> token_layout(terminator) == Some(
            Seq::<FieldKind>::empty(),
        ),
        0 <= q,
        q + ser_operand(o1).len() <= b.len(),
        b.subrange(q, q + ser_operand(o1).len()) == ser_operand(o1),
        q + ser_operand(o2).len() <= b.len(),
        b.subrange(q, q + ser_operand(o2).len()) == ser_operand(o2),
    ensures
        same_operand(o1, o2),
        ser_operand(o1) == ser_operand(o2),
    decreases o1, 0int,
{
    lemma_scan_operand(o1, k, b, q);
    lemma_scan_operand(o2, k, b, q);
    assert(ser_operand(o1) == ser_operand(o2));
    match o1 {
        Operand::Fixed { bytes } => {
            match o2 {
                Operand::Fixed { bytes: b2 } => {
                    assert(bytes@ == b2@);
                },
                _ => {},
            }
        },
        Operand::Nested { expr } => {
            match o2 {
                Operand::Nested { expr: e2 } => {
                    lemma_unique_expr(*expr, *e2, b, q);
                },
                _ => {},
            }
        },
        Operand::Text { text } => {
            match o2 {
                Operand::Text { text: t2 } => {
                    lemma_unique_text(*text, *t2, b, q);
                },
                _ => {},
            }
        },
        Operand::List { count, items, terminator } => {
            match o2 {
                Operand::List { count: c2, items: i2, terminator: t2 } => {
                    let cb1 = count_bytes(count);
                    let cb2 = count_bytes(c2);
                    let xs1 = ser_exprs(items@);
                    let xs2 = ser_exprs(i2@);
                    if count is Some {
                        lemma_le_bytes_len(count->0 as nat, 4);
                        lemma_le_bytes_len(c2->0 as nat, 4);
                    }
                    assert(ser_operand(o1) == cb1 + (xs1 + seq![terminator]));
                    assert(ser_operand(o2) == cb2 + (xs2 + seq![terminator]));
                    lemma_split(b, q, cb1, xs1 + seq![terminator]);
                    lemma_split(b, q, cb2, xs2 + seq![terminator]);
                    if count is Some {
                        lemma_le_bytes_inj(count->0 as nat, c2->0 as nat, 4);
                    }
                    assert(cb1 == cb2);
                    assert(items@.subrange(0, items@.len() as int) =~= items@);
                    assert(i2@.subrange(0, i2@.len() as int) =~= i2@);
                    lemma_unique_items(items@, i2@, terminator, b, q + cb1.len(), 0);
                    lemma_same_exprs_all(items@, i2@);
                },
                _ => {},
            }
        },
    }
}

/// Two well-formed lists closed by `t`, whose bytecode from item `i` on, with
/// the terminator, both start at `q`, are the same from `i` on.
proof fn lemma_unique_items(s1: Seq<Expr>, s2: Seq<Expr>, t: u8, b: Seq<u8>, q: int, i: int)
    requires
        wf_items(s1, t),
        wf_items(s2, t),
        token_layout(t) == Some(Seq::<FieldKind>::empty()),
        0 <= i <= s1.len(),
        i <= s2.len(),
        0 <= q,
        q + ser_exprs(s1.subrange(i, s1.len() as int)).len() + 1 <= b.len(),
        b.subrange(q, q + ser_exprs(s1.subrange(i, s1.len() as int)).len() + 1) == ser_exprs(
            s1.subrange(i, s1.len() as int),
        ) + seq![t],
        q + ser_exprs(s2.subrange(i, s2.len() as int)).len() + 1 <= b.len(),
        b.subrange(q, q + ser_exprs(s2.subrange(i, s2.len() as int)).len() + 1) == ser_exprs(
            s2.subrange(i, s2.len() as int),
        ) + seq![t],
    ensures
        s1.len() == s2.len(),
        forall|j: int| i <= j < s1.len() ==> #[trigger] same_expr(s1[j], s2[j]),
    decreases s1, s1.len() - i,
{
    if i == s1.len() {
        assert(s1.subrange(i, s1.len() as int) =~= Seq::<Expr>::empty());
        assert(b[q] == b.subrange(q, q + 1)[0]);
        if i < s2.len() {
            lemma_ser_exprs_front(s2, i);
            let a2 = ser_expr(s2[i]);
            let r2 = ser_exprs(s2.subrange(i + 1, s2.len() as int));
            assert(ser_exprs(s2.subrange(i, s2.len() as int)) + seq![t] == a2 + (r2 + seq![t]));
            lemma_split(b, q, a2, r2 + seq![t]);
            lemma_wf_items_at(s2, t, i);
            lemma_ser_expr_token(s2[i]);
            assert(b[q] == b.subrange(q, q + a2.len())[0]);
        }
    } else if i == s2.len() {
        assert(s2.subrange(i, s2.len() as int) =~= Seq::<Expr>::empty());
        assert(b[q] == b.subrange(q, q + 1)[0]);
        lemma_ser_exprs_front(s1, i);
        let a1 = ser_expr(s1[i]);
        let r1 = ser_exprs(s1.subrange(i + 1, s1.len() as int));
        assert(ser_exprs(s1.subrange(i, s1.len() as int)) + seq![t] == a1 + (r1 + seq![t]));
        lemma_split(b, q, a1, r1 + seq![t]);
        lemma_wf_items_at(s1, t, i);
        lemma_ser_expr_token(s1[i]);
        assert(b[q] == b.subrange(q, q + a1.len())[0]);
    } else {
        lemma_ser_exprs_front(s1, i);
        lemma_ser_exprs_front(s2, i);
        let a1 = ser_expr(s1[i]);
        let r1 = ser_exprs(s1.subrange(i + 1, s1.len() as int));
        let a2 = ser_expr(s2[i]);
        let r2 = ser_exprs(s2.subrange(i + 1, s2.len() as int));
        assert(ser_exprs(s1.subrange(i, s1.len() as int)) + seq![t] == a1 + (r1 + seq![t]));
        assert(ser_exprs(s2.subrange(i, s2.len() as int)) + seq![t] == a2 + (r2 + seq![t]));
        lemma_split(b, q, a1, r1 + seq![t]);
        lemma_split(b, q, a2, r2 + seq![t]);
        lemma_wf_items_at(s1, t, i);
        lemma_wf_items_at(s2, t, i);
        lemma_unique_expr(s1[i], s2[i], b, q);
        lemma_unique_items(s1, s2, t, b, q + a1.len(), i + 1);
    }
}

/// A window of `b` that holds a tag and three parts holds each part after the
/// tag and the parts before it.
proof fn lemma_tag_and_three(b: Seq<u8>, q: int, tag: u8, x: Seq<u8>, y: Seq<u8>, z: Seq<u8>)
    requires
        0 <= q,
        q + 1 + x.len() + y.len() + z.len() <= b.len(),
        b.subrange(q, q + 1 + x.len() + y.len() + z.len()) == seq![tag] + x + y + z,
    ensures
        b.subrange(q + 1, q + 1 + x.len()) == x,
        b.subrange(q + 1 + x.len(), q + 1 + x.len() + y.len()) == y,
        b.subrange(q + 1 + x.len() + y.len(), q + 1 + x.len() + y.len() + z.len()) == z,
{
    lemma_split(b, q, seq![tag] + x + y, z);
    lemma_split(b, q, seq![tag] + x, y);
    lemma_split(b, q, seq![tag], x);
}

/// Two well-formed text literals whose bytecode both start at `q` are the same.
#[verifier::rlimit(40)]
#[verifier::spinoff_prover]
proof fn lemma_unique_text(t1: ScriptText, t2: ScriptText, b: Seq<u8>, q: int)
    requires
        wf_text(t1),
        wf_text(t2),
        0 <= q,
        q + ser_text(t1).len() <= b.len(),
        b.subrange(q, q + ser_text(t1).len()) == ser_text(t1),
        q + ser_text(t2).len() <= b.len(),
        b.subrange(q, q + ser_text(t2).len()) == ser_text(t2),
    ensures
        same_text(t1, t2),
        ser_text(t1) == ser_text(t2),
    decreases t1, 0int,
{
    assert(b[q] == b.subrange(q, q + ser_text(t1).len())[0]);
    assert(b[q] == b.subrange(q, q + ser_text(t2).len())[0]);
    match t1 {
        ScriptText::Empty => {
            match t2 {
                ScriptText::Empty => {},
                _ => {},
            }
        },
        ScriptText::LocalizedText { source, key, namespace } => {
            match t2 {
                ScriptText::LocalizedText { source: s2, key: k2, namespace: n2 } => {
                    lemma_ser_expr_token(source);
                    lemma_ser_expr_token(key);
                    lemma_ser_expr_token(namespace);
                    lemma_ser_expr_token(s2);
                    lemma_ser_expr_token(k2);
                    lemma_ser_expr_token(n2);
                    let xs = ser_expr(source);
                    let xk = ser_expr(key);
                    lemma_tag_and_three(b, q, 1u8, xs, xk, ser_expr(namespace));
                    lemma_tag_and_three(b, q, 1u8, ser_expr(s2), ser_expr(k2), ser_expr(n2));
                    lemma_unique_expr(source, s2, b, q + 1);
                    lemma_unique_expr(key, k2, b, q + 1 + xs.len());
                    lemma_unique_expr(namespace, n2, b, q + 1 + xs.len() + xk.len());
                },
                _ => {},
            }
        },
        ScriptText::InvariantText { literal } => {
            match t2 {
                ScriptText::InvariantText { literal: l2 } => {
                    lemma_split(b, q, seq![2u8], ser_expr(literal));
                    lemma_split(b, q, seq![2u8], ser_expr(l2));
                    lemma_unique_expr(literal, l2, b, q + 1);
                },
                _ => {},
            }
        },
        ScriptText::LiteralString { literal } => {
            match t2 {
                ScriptText::LiteralString { literal: l2 } => {
                    lemma_split(b, q, seq![3u8], ser_expr(literal));
                    lemma_split(b, q, seq![3u8], ser_expr(l2));
                    lemma_unique_expr(literal, l2, b, q + 1);
                },
                _ => {},
            }
        },
        ScriptText::StringTableEntry { table } => {
            match t2 {
                ScriptText::StringTableEntry { table: tb2 } => {
                    lemma_le_bytes_len(table as nat, 8);
                    lemma_le_bytes_len(tb2 as nat, 8);
                    lemma_split(b, q, seq![4u8], le_bytes(table as nat, 8));
                    lemma_split(b, q, seq![4u8], le_bytes(tb2 as nat, 8));
                    lemma_le_bytes_inj(table as nat, tb2 as nat, 8);
                },
                _ => {},
            }
        },
    }
}

/// Two well-formed switch cases whose bytecode both start at `q` are the same.
proof fn lemma_unique_case(c1: SwitchCase, c2: SwitchCase, b: Seq<u8>, q: int)
    requires
        wf_expr(c1.value),
        wf_expr(c1.term),
        wf_expr(c2.value),
        wf_expr(c2.term),
        0 <= q,
        q + ser_case(c1).len() <= b.len(),
        b.subrange(q, q + ser_case(c1).len()) == ser_case(c1),
        q + ser_case(c2).len() <= b.len(),
        b.subrange(q, q + ser_case(c2).len()) == ser_case(c2),
    ensures
        same_case(c1, c2),
        ser_case(c1) == ser_case(c2),
    decreases c1, 0int,
{
    let xv1 = ser_expr(c1.value);
    let ob1 = le_bytes(c1.next_offset as nat, 4);
    let xt1 = ser_expr(c1.term);
    let xv2 = ser_expr(c2.value);
    let ob2 = le_bytes(c2.next_offset as nat, 4);
    let xt2 = ser_expr(c2.term);
    lemma_le_bytes_len(c1.next_offset as nat, 4);
    lemma_le_bytes_len(c2.next_offset as nat, 4);
    lemma_split(b, q, xv1 + ob1, xt1);
    lemma_split(b, q, xv1, ob1);
    lemma_split(b, q, xv2 + ob2, xt2);
    lemma_split(b, q, xv2, ob2);
    lemma_unique_expr(c1.value, c2.value, b, q);
    lemma_le_bytes_inj(c1.next_offset as nat, c2.next_offset as nat, 4);
    lemma_unique_expr(c1.term, c2.term, b, q + xv1.len() + 4);
}

/// Two well-formed sequences of as many switch cases, whose bytecode from case
/// `i` on both start at `q`, are the same from `i` on.
proof fn lemma_unique_cases(s1: Seq<SwitchCase>, s2: Seq<SwitchCase>, b: Seq<u8>, q: int, i: int)
    requires
        wf_cases(s1),
        wf_cases(s2),
        s1.len() == s2.len(),
        0 <= i <= s1.len(),
        0 <= q,
        q + ser_cases(s1.subrange(i, s1.len() as int)).len() <= b.len(),
        b.subrange(q, q + ser_cases(s1.subrange(i, s1.len() as int)).len()) == ser_cases(
            s1.subrange(i, s1.len() as int),
        ),
        q + ser_cases(s2.subrange(i, s2.len() as int)).len() <= b.len(),
        b.subrange(q, q + ser_cases(s2.subrange(i, s2.len() as int)).len()) == ser_cases(
            s2.subrange(i, s2.len() as int),
        ),
    ensures
        forall|j: int| i <= j < s1.len() ==> #[trigger] same_case(s1[j], s2[j]),
        ser_cases(s1.subrange(i, s1.len() as int)) == ser_cases(s2.subrange(i, s2.len() as int)),
    decreases s1, s1.len() - i,
{
    if i == s1.len() {
        assert(s1.subrange(i, s1.len() as int) =~= Seq::<SwitchCase>::empty());
        assert(s2.subrange(i, s2.len() as int) =~= Seq::<SwitchCase>::empty());
    } else {
        lemma_ser_cases_front(s1, i);
        lemma_ser_cases_front(s2, i);
        let a1 = ser_case(s1[i]);
        let r1 = ser_cases(s1.subrange(i + 1, s1.len() as int));
        let a2 = ser_case(s2[i]);
        let r2 = ser_cases(s2.subrange(i + 1, s2.len() as int));
        lemma_split(b, q, a1, r1);
        lemma_split(b, q, a2, r2);
        lemma_wf_cases_at(s1, i);
        lemma_wf_cases_at(s2, i);
        lemma_unique_case(s1[i], s2[i], b, q);
        lemma_unique_cases(s1, s2, b, q + a1.len(), i + 1);
    }
}

/// The bytecode of a well-formed expression determines it: where the bytecode
/// of two well-formed expressions, each followed by whatever comes after it,
/// makes the same bytes, the two are the same expression, their bytecode is the
/// same, and so is what follows.
pub proof fn lemma_bytecode_determines_expr(e1: Expr, e2: Expr, rest1: Seq<u8>, rest2: Seq<u8>)
    requires
        wf_expr(e1),
        wf_expr(e2),
        ser_expr(e1) + rest1 == ser_expr(e2) + rest2,
    ensures
        same_expr(e1, e2),
        ser_expr(e1) == ser_expr(e2),
        rest1 == rest2,
{
    let b = ser_expr(e1) + rest1;
    assert(b.subrange(0, ser_expr(e1).len() as int) =~= ser_expr(e1));
    assert((ser_expr(e2) + rest2).subrange(0, ser_expr(e2).len() as int) =~= ser_expr(e2));
    lemma_unique_expr(e1, e2, b, 0);
    assert(rest1 =~= b.subrange(ser_expr(e1).len() as int, b.len() as int));
    assert(rest2 =~= (ser_expr(e2) + rest2).subrange(ser_expr(e2).len() as int, b.len() as int));
}

/// Reading gives back what was written: a well-formed expression read from the
/// front of the bytecode of a well-formed expression `e`, whatever follows it,
/// as [`Expr::read`] promises its result, is `e`, and the read ends right after
/// `e`'s bytecode.
pub proof fn lemma_read_gives_back(e: Expr, rest: Seq<u8>, read: Expr, end: int)
    requires
        wf_expr(e),
        wf_expr(read),
        0 < end <= ser_expr(e).len() + rest.len(),
        ser_expr(read) == (ser_expr(e) + rest).subrange(0, end),
    ensures
        same_expr(read, e),
        end == ser_expr(e).len(),
{
    let b = ser_expr(e) + rest;
    assert(b.subrange(0, ser_expr(e).len() as int) =~= ser_expr(e));
    lemma_unique_expr(read, e, b, 0);
}

} // verus!
