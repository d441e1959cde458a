use rms_check::lsp::{
    apply_changes, code_actions, find_command_at, format_edit, lsp_severity, parameter_label,
    parse_header, signature_label, to_lsp_diagnostic, to_lsp_range, to_source_location,
    ChangeError, ContentChange, Header, HeaderError, LspRange, LspSeverity, Position,
};
use rms_check::{
    ByteIndex, Diagnostic, FileId, Fix, FormatOptions, Label, RMSFile, Severity, SourceLocation,
};

fn pos(line: u32, character: u32) -> Position {
    Position { line, character }
}

fn range(a: (u32, u32), b: (u32, u32)) -> LspRange {
    LspRange {
        start: pos(a.0, a.1),
        end: pos(b.0, b.1),
    }
}

fn loc(start: usize, end: usize) -> SourceLocation {
    SourceLocation::new(FileId::new(0), ByteIndex::from(start), ByteIndex::from(end))
}

#[test]
fn byte_index_and_location_agree() {
    let file = RMSFile::from_string("a.rms", "ab\ncd\n");
    assert_eq!(file.get_byte_index(FileId::new(0), 1, 1), Some(ByteIndex::from(4)));
    assert_eq!(file.get_location(FileId::new(0), ByteIndex::from(4)), Some((1, 1)));
    assert_eq!(file.get_byte_index(FileId::new(0), 0, 2), Some(ByteIndex::from(2)));
    assert_eq!(file.get_byte_index(FileId::new(0), 0, 3), None);
    assert_eq!(file.get_byte_index(FileId::new(0), 2, 0), Some(ByteIndex::from(6)));
    assert_eq!(file.get_byte_index(FileId::new(0), 3, 0), None);
    assert_eq!(file.get_byte_index(FileId::new(9), 0, 0), None);
}

#[test]
fn ranges_convert_both_ways() {
    let file = RMSFile::from_string("a.rms", "ab\ncd");
    let r = to_lsp_range(&file, loc(3, 5)).unwrap();
    assert_eq!(r, range((1, 0), (1, 2)));
    assert_eq!(to_source_location(&file, FileId::new(0), r), Some(loc(3, 5)));
    assert_eq!(to_lsp_range(&file, loc(3, 9)), None);
    assert_eq!(to_source_location(&file, FileId::new(0), range((0, 0), (4, 0))), None);
}

#[test]
fn severities_for_the_client() {
    assert_eq!(lsp_severity(Severity::ParseError), LspSeverity::Error);
    assert_eq!(lsp_severity(Severity::Error), LspSeverity::Error);
    assert_eq!(lsp_severity(Severity::Warning), LspSeverity::Warning);
    assert_eq!(lsp_severity(Severity::Hint), LspSeverity::Information);
}

#[test]
fn diagnostics_for_the_client() {
    let file = RMSFile::from_string("a.rms", "ab\ncd");
    let d = Diagnostic::warning(loc(0, 2), "first")
        .with_code("x")
        .add_label(Label::new(loc(3, 4), "second"));
    let l = to_lsp_diagnostic(&file, &d).unwrap();
    assert_eq!(l.range, range((0, 0), (0, 2)));
    assert_eq!(l.severity, LspSeverity::Warning);
    assert_eq!(l.code.as_deref(), Some("x"));
    assert_eq!(l.message, "first");
    assert_eq!(l.related.len(), 1);
    assert_eq!(l.related[0].range, range((1, 0), (1, 1)));
    assert_eq!(l.related[0].message, "second");
    let bad = Diagnostic::warning(loc(0, 2), "first").add_label(Label::new(loc(3, 40), "far"));
    assert!(to_lsp_diagnostic(&file, &bad).is_none());
}

#[test]
fn code_actions_for_a_range() {
    let file = RMSFile::from_string("a.rms", "ab cd");
    let diagnostics = vec![
        Diagnostic::warning(loc(0, 2), "first")
            .autofix(Fix::new(loc(0, 2), "fix it").replace("AB"))
            .suggest(Fix::new(loc(0, 2), "maybe").replace("Ab"))
            .suggest(Fix::new(loc(0, 2), "no text")),
        Diagnostic::warning(loc(3, 5), "second").autofix(Fix::new(loc(3, 5), "other").replace("CD")),
    ];
    let actions = code_actions(&file, &diagnostics, range((0, 1), (0, 1))).unwrap();
    assert_eq!(actions.len(), 2);
    assert_eq!(actions[0].title, "fix it");
    assert_eq!(actions[0].new_text, "AB");
    assert_eq!(actions[0].range, range((0, 0), (0, 2)));
    assert_eq!(actions[0].diagnostic.message, "first");
    assert_eq!(actions[1].title, "maybe");
    let none = code_actions(&file, &diagnostics, range((0, 2), (0, 2))).unwrap();
    assert!(none.is_empty());
    assert!(code_actions(&file, &diagnostics, range((3, 0), (3, 0))).is_none());
}

fn change(r: Option<LspRange>, text: &str) -> ContentChange {
    ContentChange {
        range: r,
        text: text.to_string(),
    }
}

#[test]
fn changes_are_spliced_into_the_document() {
    let file = RMSFile::from_string("a.rms", "ab\ncd");
    let changes = vec![
        change(Some(range((0, 0), (0, 1))), "X"),
        change(Some(range((1, 1), (1, 2))), "YZ"),
    ];
    assert_eq!(
        apply_changes(&file, 3, Some(4), &changes),
        Ok(("Xb\ncYZ".to_string(), 4))
    );
    assert_eq!(
        apply_changes(&file, 3, None, &[change(None, "all new")]),
        Ok(("all new".to_string(), 4))
    );
}

#[test]
fn changes_that_cannot_be_applied() {
    let file = RMSFile::from_string("a.rms", "ab\ncd");
    assert_eq!(
        apply_changes(&file, 5, Some(4), &[change(None, "x")]),
        Err(ChangeError::VersionMismatch)
    );
    assert_eq!(
        apply_changes(&file, 1, None, &[change(Some(range((7, 0), (7, 0))), "x")]),
        Err(ChangeError::OutOfBounds)
    );
    assert_eq!(
        apply_changes(&file, 1, None, &[change(None, "x"), change(Some(range((0, 1), (0, 1))), "y")]),
        Err(ChangeError::Unspliceable)
    );
}

#[test]
fn command_under_the_cursor() {
    let source = "<OBJECTS_GENERATION>\ncreate_object VILLAGER {\n  number_of_objects 5\n}\n";
    let five = source.find('5').unwrap();
    assert_eq!(
        find_command_at(source, ByteIndex::from(five)),
        Some(("number_of_objects".to_string(), Some(0)))
    );
    assert_eq!(
        find_command_at(source, ByteIndex::from(source.find("number").unwrap() + 2)),
        Some(("number_of_objects".to_string(), None))
    );
    assert_eq!(find_command_at(source, ByteIndex::from(3)), None);
}

#[test]
fn signature_labels() {
    assert_eq!(parameter_label("create_object", 0, "type"), "type:Token");
    assert_eq!(parameter_label("number_of_objects", 0, "amount"), "amount:Number");
    assert_eq!(parameter_label("create_object", 1, "extra"), "extra");
    assert_eq!(parameter_label("not_a_command", 0, "x"), "x");
    assert_eq!(
        signature_label("create_object", &["type:Token".to_string()]),
        "create_object type:Token"
    );
    assert_eq!(signature_label("random_placement", &[]), "random_placement");
}

#[test]
fn formatting_replaces_the_whole_script() {
    let source = "<PLAYER_SETUP>\nrandom_placement";
    let file = RMSFile::from_string("a.rms", source);
    let (r, text) = format_edit(&file, FormatOptions::default()).unwrap();
    assert_eq!(r, range((0, 0), (1, 16)));
    assert_eq!(text, rms_check::formatter::format(source, FormatOptions::default()));
    assert!(text.ends_with("random_placement\r\n"));
}

#[test]
fn message_headers() {
    assert_eq!(parse_header("\r\n"), Ok(Header::End));
    assert_eq!(parse_header("Content-Length: 52\r\n"), Ok(Header::ContentLength(52)));
    assert_eq!(parse_header("content-length: +7\r\n"), Ok(Header::ContentLength(7)));
    assert_eq!(parse_header("Content-Type: utf-8\r\n"), Ok(Header::Other));
    assert_eq!(parse_header("Content-Length: x\r\n"), Err(HeaderError::NotANumber));
    assert_eq!(parse_header("Content-Length 5\r\n"), Err(HeaderError::Malformed));
    assert_eq!(parse_header("a: b: c\r\n"), Err(HeaderError::Malformed));
}
