use mint::kismet::disassembly::{disassemble, format_expr, token_name};
use mint::kismet::{
    layout_of, read_script, Expr, FieldKind, KismetError, Operand, ScriptText,
};

fn read_all(bytes: &[u8]) -> (Expr, usize) {
    Expr::read(bytes, 0).unwrap()
}

#[test]
fn read_int_const_consumes_its_size() {
    // EX_IntConst 42, then EX_Return EX_Nothing.
    let bytes = [0x1Du8, 42, 0, 0, 0, 0x04, 0x0B];
    let (e, end) = Expr::read(&bytes, 0).unwrap();
    assert_eq!(end, 5);
    assert_eq!(e.size(), 5);
    assert_eq!(e.token(), 0x1D);
    match &e {
        Expr::Node { token, operands } => {
            assert_eq!(*token, 0x1D);
            assert_eq!(operands.len(), 1);
            assert!(matches!(&operands[0], Operand::Fixed { bytes } if bytes == &vec![42u8, 0, 0, 0]));
        }
        _ => panic!("expected an instruction"),
    }
    let (r, end2) = Expr::read(&bytes, end).unwrap();
    assert_eq!(end2, 7);
    assert_eq!(r.size(), 2);
}

#[test]
fn local_variable_is_token_and_pointer() {
    let bytes = [0x00u8, 1, 2, 3, 4, 5, 6, 7, 8];
    let (e, end) = read_all(&bytes);
    assert_eq!(end, 9);
    assert_eq!(e.size(), 9);
}

#[test]
fn let_reads_pointer_and_two_expressions() {
    // EX_Let: property pointer, variable (EX_IntZero), expression (EX_IntOne).
    let mut bytes = vec![0x0Fu8];
    bytes.extend_from_slice(&[9; 8]);
    bytes.push(0x25);
    bytes.push(0x26);
    let (e, end) = read_all(&bytes);
    assert_eq!(end, 11);
    assert_eq!(e.size(), 11);
    match &e {
        Expr::Node { operands, .. } => {
            assert_eq!(operands.len(), 3);
            assert!(matches!(&operands[1], Operand::Nested { expr } if expr.token() == 0x25));
            assert!(matches!(&operands[2], Operand::Nested { expr } if expr.token() == 0x26));
        }
        _ => panic!("expected an instruction"),
    }
}

#[test]
fn virtual_function_reads_parameters_up_to_end_of_parms() {
    let mut bytes = vec![0x1Bu8];
    bytes.extend_from_slice(&[1; 12]);
    bytes.extend_from_slice(&[0x27, 0x28, 0x16]);
    let (e, end) = read_all(&bytes);
    assert_eq!(end, 16);
    assert_eq!(e.size(), 16);
    match &e {
        Expr::Node { operands, .. } => match &operands[1] {
            Operand::List { count, items, terminator } => {
                assert_eq!(*count, None);
                assert_eq!(items.len(), 2);
                assert_eq!(*terminator, 0x16);
            }
            _ => panic!("expected a list"),
        },
        _ => panic!("expected an instruction"),
    }
}

#[test]
fn counted_list_keeps_its_count() {
    // EX_SetSet: set property (EX_Self), count 2, two items, EX_EndSet.
    let bytes = [0x39u8, 0x17, 2, 0, 0, 0, 0x25, 0x26, 0x3A];
    let (e, end) = read_all(&bytes);
    assert_eq!(end, 9);
    assert_eq!(e.size(), 9);
    match &e {
        Expr::Node { operands, .. } => {
            assert!(matches!(&operands[1], Operand::List { count: Some(2), items, terminator: 0x3A } if items.len() == 2));
        }
        _ => panic!("expected an instruction"),
    }
}

#[test]
fn string_constants() {
    let bytes = [0x1Fu8, b'h', b'i', 0];
    let (e, end) = read_all(&bytes);
    assert_eq!(end, 4);
    assert_eq!(e.size(), 4);
    assert!(matches!(&e, Expr::StringConst { chars } if chars == &b"hi".to_vec()));

    let wide = [0x34u8, 0x41, 0x00, 0x42, 0x00, 0, 0];
    let (e, end) = read_all(&wide);
    assert_eq!(end, 7);
    assert_eq!(e.size(), 7);
    assert!(matches!(&e, Expr::UnicodeStringConst { units } if units == &vec![0x41u16, 0x42]));
}

#[test]
fn unterminated_strings_are_eof() {
    assert!(matches!(Expr::read(&[0x1Fu8, b'a'], 0), Err(KismetError::UnexpectedEof)));
    assert!(matches!(Expr::read(&[0x34u8, 0x41, 0x00, 0x00], 0), Err(KismetError::UnexpectedEof)));
}

#[test]
fn text_literals_of_each_kind() {
    let empty = [0x29u8, 0];
    let (e, end) = read_all(&empty);
    assert_eq!((end, e.size()), (2, 2));
    assert!(matches!(&e, Expr::Node { operands, .. } if matches!(&operands[0], Operand::Text { text } if matches!(**text, ScriptText::Empty))));

    let literal = [0x29u8, 3, 0x1F, b'a', 0];
    let (e, end) = read_all(&literal);
    assert_eq!((end, e.size()), (5, 5));

    let table = [0x29u8, 4, 1, 0, 0, 0, 0, 0, 0, 0];
    let (e, end) = read_all(&table);
    assert_eq!((end, e.size()), (10, 10));
    assert!(matches!(&e, Expr::Node { operands, .. } if matches!(&operands[0], Operand::Text { text } if matches!(**text, ScriptText::StringTableEntry { table: 1 }))));

    let localized = [0x29u8, 1, 0x1F, b's', 0, 0x1F, b'k', 0, 0x1F, b'n', 0];
    let (e, end) = read_all(&localized);
    assert_eq!((end, e.size()), (11, 11));

    let invariant = [0x29u8, 2, 0x25];
    let (e, end) = read_all(&invariant);
    assert_eq!((end, e.size()), (3, 3));
}

#[test]
fn unknown_text_kind_is_an_error() {
    assert!(matches!(Expr::read(&[0x29u8, 5], 0), Err(KismetError::UnknownTextKind(5))));
}

#[test]
fn switch_value_reads_its_cases() {
    // one case; index EX_IntZero, case value EX_IntOne, offset, term EX_True, default EX_False.
    let bytes = [0x69u8, 1, 0, 7, 0, 0, 0, 0x25, 0x26, 9, 0, 0, 0, 0x27, 0x28];
    let (e, end) = read_all(&bytes);
    assert_eq!(end, 15);
    assert_eq!(e.size(), 15);
    assert_eq!(e.token(), 0x69);
    match &e {
        Expr::SwitchValue { end_goto_offset, cases, .. } => {
            assert_eq!(*end_goto_offset, 7);
            assert_eq!(cases.len(), 1);
            assert_eq!(cases[0].next_offset, 9);
            assert_eq!(cases[0].value.token(), 0x26);
            assert_eq!(cases[0].term.token(), 0x27);
        }
        _ => panic!("expected a switch"),
    }
}

#[test]
fn truncated_switch_is_eof() {
    assert!(matches!(Expr::read(&[0x69u8, 1, 0, 7, 0], 0), Err(KismetError::UnexpectedEof)));
    // one case announced, none present before the end.
    assert!(matches!(Expr::read(&[0x69u8, 1, 0, 7, 0, 0, 0, 0x25], 0), Err(KismetError::UnexpectedEof)));
}

#[test]
fn unknown_token_is_an_error() {
    assert!(matches!(Expr::read(&[0x03u8], 0), Err(KismetError::UnknownToken(0x03))));
    let mut nested = vec![0x1Bu8];
    nested.extend_from_slice(&[1; 12]);
    nested.push(0x0A);
    assert!(matches!(Expr::read(&nested, 0), Err(KismetError::UnknownToken(0x0A))));
}

#[test]
fn truncated_expressions_are_eof() {
    assert!(matches!(Expr::read(&[], 0), Err(KismetError::UnexpectedEof)));
    assert!(matches!(Expr::read(&[0x1Du8, 1, 2], 0), Err(KismetError::UnexpectedEof)));
    let mut open_list = vec![0x1Bu8];
    open_list.extend_from_slice(&[1; 12]);
    open_list.push(0x27);
    assert!(matches!(Expr::read(&open_list, 0), Err(KismetError::UnexpectedEof)));
}

#[test]
fn script_listing_offsets() {
    let bytes = [0x1Du8, 1, 0, 0, 0, 0x27, 0x53];
    let listing = read_script(&bytes).unwrap();
    let offsets: Vec<usize> = listing.iter().map(|(o, _)| *o).collect();
    assert_eq!(offsets, vec![0, 5, 6]);
    let total: usize = listing.iter().map(|(_, e)| e.size()).sum();
    assert_eq!(total, bytes.len());
}

#[test]
fn script_with_a_bad_expression_fails() {
    let bytes = [0x27u8, 0x03];
    assert!(matches!(read_script(&bytes), Err(KismetError::UnknownToken(0x03))));
    assert!(read_script(&[]).unwrap().is_empty());
}

#[test]
fn disassembly_sizes_match_bytes_read() {
    // A script mixing the shapes above: each expression's size is the bytes it took.
    let mut bytes = vec![0x0Fu8];
    bytes.extend_from_slice(&[0; 8]);
    bytes.extend_from_slice(&[0x1D, 3, 0, 0, 0]);
    bytes.extend_from_slice(&[0x1F, b'x', 0]);
    bytes.extend_from_slice(&[0x69, 0, 0, 0, 0, 0, 0, 0x25, 0x26]);
    bytes.extend_from_slice(&[0x04, 0x0B, 0x53]);
    let mut pos = 0;
    while pos < bytes.len() {
        let (e, end) = Expr::read(&bytes, pos).unwrap();
        assert_eq!(end - pos, e.size());
        pos = end;
    }
    assert_eq!(pos, bytes.len());
}

#[test]
fn layouts_of_tokens() {
    assert_eq!(
        layout_of(0x0F),
        Some(vec![FieldKind::Fixed(8), FieldKind::Nested, FieldKind::Nested])
    );
    assert_eq!(
        layout_of(0x3F),
        Some(vec![
            FieldKind::Fixed(8),
            FieldKind::Fixed(8),
            FieldKind::List { counted: true, terminator: 0x40 }
        ])
    );
    assert_eq!(layout_of(0x16), Some(vec![]));
    assert_eq!(layout_of(0x1F), None);
    assert_eq!(layout_of(0x69), None);
    assert_eq!(layout_of(0x03), None);
}

#[test]
fn bytecode_reads_back_to_the_same_expression_whatever_follows() {
    // EX_VirtualFunction with two parameters, read alone and with bytes after it.
    let mut bytes = vec![0x1Bu8];
    bytes.extend_from_slice(&[7; 12]);
    bytes.push(0x25);
    bytes.extend_from_slice(&[0x1Du8, 5, 0, 0, 0]);
    bytes.push(0x16);
    let (alone, end_alone) = Expr::read(&bytes, 0).unwrap();
    let mut longer = bytes.clone();
    longer.extend_from_slice(&[0x04, 0x0B, 0xFF]);
    let (followed, end_followed) = Expr::read(&longer, 0).unwrap();
    assert_eq!(end_alone, bytes.len());
    assert_eq!(end_followed, bytes.len());
    assert_eq!(format!("{:?}", alone), format!("{:?}", followed));
    assert_eq!(alone.size(), bytes.len());
}

#[test]
fn listing_records_each_expression_offset() {
    // EX_IntConst 42, then EX_Return EX_Nothing, then EX_EndOfScript.
    let bytes = [0x1Du8, 42, 0, 0, 0, 0x04, 0x0B, 0x53];
    let src = disassemble(&bytes).unwrap();
    let recorded: Vec<(usize, usize)> = src.index_to_line.iter().map(|(k, v)| (*k, *v)).collect();
    // Line 2 is the constant's operand, line 4 the nested EX_Nothing.
    assert_eq!(recorded, vec![(0, 1), (5, 3), (6, 4), (7, 5)]);
    let lines: Vec<&str> = src.content.lines().collect();
    assert_eq!(lines.len(), 5);
    assert_eq!(lines[0], "     0: ExIntConst");
    assert_eq!(lines[1], "            [2A, 0, 0, 0]");
    assert_eq!(lines[2], "     5: ExReturn");
    assert_eq!(lines[3], "     6:     ExNothing");
    assert_eq!(lines[4], "     7: ExEndOfScript");
}

#[test]
fn listing_of_a_bad_script_is_its_read_error() {
    assert!(matches!(disassemble(&[0x27u8, 0x03]), Err(KismetError::UnknownToken(0x03))));
    assert!(matches!(disassemble(&[0x1Du8, 1]), Err(KismetError::UnexpectedEof)));
    let empty = disassemble(&[]).unwrap();
    assert!(empty.index_to_line.is_empty());
    assert_eq!(empty.content, "");
}

#[test]
fn layout_moves_past_the_bytecode() {
    let mut bytes = vec![0x0Fu8];
    bytes.extend_from_slice(&[0; 8]);
    bytes.extend_from_slice(&[0x1D, 3, 0, 0, 0]);
    bytes.extend_from_slice(&[0x1F, b'x', 0]);
    let (e, end) = Expr::read(&bytes, 0).unwrap();
    assert_eq!(end, bytes.len());
    let (line, next) = format_expr(&e, 100);
    assert_eq!(next, 100 + bytes.len());
    assert_eq!(line.index, Some(100));
    assert_eq!(line.content, "ExLet");
    assert_eq!(line.children.len(), 3);
    assert_eq!(line.children[1].index, Some(109));
    assert_eq!(line.children[2].index, Some(114));
    assert_eq!(line.children[2].content, "EX_StringConst(\"x\")");
    let switch = [0x69u8, 1, 0, 9, 0, 0, 0, 0x25, 0x26, 0, 0, 0, 0, 0x27, 0x28];
    let (e, end) = Expr::read(&switch, 0).unwrap();
    assert_eq!(end, switch.len());
    let (line, next) = format_expr(&e, 0);
    assert_eq!(next, switch.len());
    assert_eq!(line.content, "EX_SwitchValue");
    assert_eq!(line.children.len(), 3);
    assert_eq!(line.children[1].content, "case");
    assert_eq!(line.children[1].children[1].index, Some(13));
    assert_eq!(line.children[2].index, Some(14));
}

#[test]
fn token_names() {
    assert_eq!(token_name(0x1D), "ExIntConst");
    assert_eq!(token_name(0x53), "ExEndOfScript");
    assert_eq!(token_name(0x03), "Unknown");
}

#[test]
fn string_constants_show_their_text_quoted() {
    let wide = [0x34u8, 0x41, 0x00, 0x22, 0x00, 0, 0];
    let (e, _) = Expr::read(&wide, 0).unwrap();
    let (line, next) = format_expr(&e, 3);
    assert_eq!(next, 3 + wide.len());
    assert_eq!(line.content, "EX_UnicodeStringConst(\"A\\\"\")");
    let narrow = [0x1Fu8, b'a', b'\n', 0];
    let (e, _) = Expr::read(&narrow, 0).unwrap();
    let (line, _) = format_expr(&e, 0);
    assert_eq!(line.content, "EX_StringConst(\"a\\n\")");
    let table = [0x29u8, 4, 0x2A, 0, 0, 0, 0, 0, 0, 0];
    let (e, end) = Expr::read(&table, 0).unwrap();
    assert_eq!(end, table.len());
    let (line, _) = format_expr(&e, 0);
    assert_eq!(line.content, "ExTextConst");
    assert_eq!(line.children[0].content, "FScriptText");
    assert_eq!(line.children[0].children[0].prefix.as_deref(), Some("string_table = "));
    assert_eq!(line.children[0].children[0].content, "UObject(2A)");
}
