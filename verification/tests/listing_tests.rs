use mint::listing::{SourceCollector, SourceLine};

fn line(index: Option<usize>, content: &str) -> SourceLine {
    let mut l = SourceLine::from_content(content.to_string());
    l.index = index;
    l
}

#[test]
fn lines_are_labelled_indented_and_numbered() {
    let mut root = line(Some(0), "EX_Let");
    root.children.push(line(Some(1), "a").prefix("x = ".to_string()));
    let mut list = line(None, "list");
    list.children.push(line(Some(12), "b"));
    root.children.push(list);

    let mut out = SourceCollector::new();
    root.write(&mut out, 0);

    assert_eq!(out.line, 4);
    assert_eq!(
        out.source.content,
        "     0: EX_Let\n     1:     x = a\n            list\n    12:         b\n"
    );
    let lines: Vec<(usize, usize)> = out.source.index_to_line.iter().map(|(k, v)| (*k, *v)).collect();
    assert_eq!(lines, vec![(0, 1), (1, 2), (12, 4)]);
}

#[test]
fn later_lines_continue_the_numbering() {
    let mut out = SourceCollector::new();
    line(Some(3), "first").write(&mut out, 0);
    line(Some(3), "again").write(&mut out, 1);
    line(Some(123456789), "wide").write(&mut out, 0);
    assert_eq!(out.line, 3);
    assert_eq!(
        out.source.content,
        "     3: first\n     3:     again\n123456789: wide\n"
    );
    let lines: Vec<(usize, usize)> = out.source.index_to_line.iter().map(|(k, v)| (*k, *v)).collect();
    assert_eq!(lines, vec![(3, 2), (123456789, 3)]);
}

#[test]
fn line_of_an_offset_defaults_to_the_first_line() {
    let mut out = SourceCollector::new();
    line(None, "header").write(&mut out, 0);
    line(Some(7), "body").write(&mut out, 0);
    assert_eq!(out.source.line_of(7), 2);
    assert_eq!(out.source.line_of(8), 1);
}
