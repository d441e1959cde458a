use rms_check::{AtomKind, FileId, ParseError, ParseErrorKind, Parser};

fn parse(source: &str) -> Vec<(AtomKind<'_>, Vec<ParseError>)> {
    let mut parser = Parser::new(FileId::new(0), source);
    let mut atoms = vec![];
    while let Some((atom, errors)) = parser.next() {
        atoms.push((atom.kind, errors));
    }
    atoms
}

#[test]
fn parser_const_ok() {
    let atoms = parse("#const A B");
    if let (AtomKind::Const { head, name, value }, warnings) = &atoms[0] {
        assert_eq!(head.value, "#const");
        assert_eq!(name.value, "A");
        assert!(value.is_some());
        assert_eq!(value.unwrap().value, "B");
        assert!(warnings.is_empty());
    } else {
        assert!(false);
    }
}

#[test]
fn parser_const_missing_value() {
    let atoms = parse("#const B");
    if let (AtomKind::Const { head, name, value }, warnings) = &atoms[0] {
        assert_eq!(head.value, "#const");
        assert_eq!(name.value, "B");
        assert!(value.is_none());
        assert_eq!(warnings.len(), 1);
        assert_eq!(warnings[0].kind, ParseErrorKind::MissingConstValue);
    } else {
        assert!(false);
    }
}

#[test]
fn parser_const_missing_name() {
    let atoms = parse("#const");
    if let (AtomKind::Other { value }, warnings) = &atoms[0] {
        assert_eq!(value.value, "#const");
        assert_eq!(warnings.len(), 1);
        assert_eq!(warnings[0].kind, ParseErrorKind::MissingConstName);
    } else {
        assert!(false);
    }
}

#[test]
fn parser_define_ok() {
    let atoms = parse("#define B");
    if let (AtomKind::Define { head, name }, warnings) = &atoms[0] {
        assert_eq!(head.value, "#define");
        assert_eq!(name.value, "B");
        assert!(warnings.is_empty());
    } else {
        assert!(false);
    }
}

#[test]
fn parser_define_missing_name() {
    let atoms = parse("#define");
    if let (AtomKind::Other { value }, warnings) = &atoms[0] {
        assert_eq!(value.value, "#define");
        assert_eq!(warnings.len(), 1);
        assert_eq!(warnings[0].kind, ParseErrorKind::MissingDefineName);
    } else {
        assert!(false);
    }
}

#[test]
fn parser_command_noargs() {
    let atoms = parse("random_placement");
    assert_eq!(atoms.len(), 1);
    if let (AtomKind::Command { name, arguments }, warnings) = &atoms[0] {
        assert_eq!(name.value, "random_placement");
        assert!(arguments.is_empty());
        assert!(warnings.is_empty());
    } else {
        assert!(false);
    }
}

#[test]
fn parser_command_1arg() {
    let atoms = parse("land_percent 10 grouped_by_team");
    assert_eq!(atoms.len(), 2);
    if let (AtomKind::Command { name, arguments }, warnings) = &atoms[0] {
        assert_eq!(name.value, "land_percent");
        assert_eq!(arguments.len(), 1);
        assert_eq!(arguments[0].value, "10");
        assert!(warnings.is_empty());
    } else {
        assert!(false);
    }
    if let (AtomKind::Command { name, arguments }, warnings) = &atoms[1] {
        assert_eq!(name.value, "grouped_by_team");
        assert!(arguments.is_empty());
        assert!(warnings.is_empty());
    } else {
        assert!(false);
    }
}

/// It should accept wrong casing, a linter can fix it up.
#[test]
fn command_wrong_case() {
    let atoms = parse("land_Percent 10 grouped_BY_team");
    assert_eq!(atoms.len(), 2);
    if let (AtomKind::Command { name, arguments }, warnings) = &atoms[0] {
        assert_eq!(name.value, "land_Percent");
        assert_eq!(arguments.len(), 1);
        assert_eq!(arguments[0].value, "10");
        assert!(warnings.is_empty());
    } else {
        assert!(false);
    }
    if let (AtomKind::Command { name, arguments }, warnings) = &atoms[1] {
        assert_eq!(name.value, "grouped_BY_team");
        assert!(arguments.is_empty());
        assert!(warnings.is_empty());
    } else {
        assert!(false);
    }
}

#[test]
fn parser_command_block() {
    let mut atoms = parse("create_terrain SNOW { base_size 15 }");
    assert_eq!(atoms.len(), 4);
    if let (AtomKind::Command { name, arguments }, _) = atoms.remove(0) {
        assert_eq!(name.value, "create_terrain");
        assert_eq!(arguments.len(), 1);
        assert_eq!(arguments[0].value, "SNOW");
    } else {
        assert!(false)
    }
    if let (AtomKind::OpenBlock { head }, _) = atoms.remove(0) {
        assert_eq!(head.value, "{");
    } else {
        assert!(false)
    }
    if let (AtomKind::Command { name, arguments }, _) = atoms.remove(0) {
        assert_eq!(name.value, "base_size");
        assert_eq!(arguments.len(), 1);
        assert_eq!(arguments[0].value, "15");
    } else {
        assert!(false)
    }
    if let (AtomKind::CloseBlock { head }, _) = atoms.remove(0) {
        assert_eq!(head.value, "}");
    } else {
        assert!(false)
    }
}

#[test]
fn parser_comment_basic() {
    let mut atoms = parse("create_terrain SNOW /* this is a comment */ { }");
    assert_eq!(atoms.len(), 4);
    if let (AtomKind::Command { .. }, _) = atoms.remove(0) {
        // ok
    } else {
        assert!(false)
    }
    if let (AtomKind::Comment { open, content, close }, _) = atoms.remove(0) {
        assert_eq!(open.value, "/*");
        assert_eq!(content, " this is a comment ");
        assert_eq!(close.unwrap().value, "*/");
    } else {
        assert!(false)
    }
    if let (AtomKind::OpenBlock { head }, _) = atoms.remove(0) {
        assert_eq!(head.value, "{");
    } else {
        assert!(false)
    }
    if let (AtomKind::CloseBlock { head }, _) = atoms.remove(0) {
        assert_eq!(head.value, "}");
    } else {
        assert!(false)
    }
}

#[test]
fn parser_unclosed_comment_and_unknown_word() {
    let atoms = parse("/* open GARBAGE");
    assert_eq!(atoms.len(), 1);
    if let (AtomKind::Comment { content, close, .. }, warnings) = &atoms[0] {
        assert_eq!(content, " open GARBAGE");
        assert!(close.is_none());
        assert_eq!(warnings[0].kind, ParseErrorKind::UnclosedComment);
    } else {
        assert!(false);
    }
    let atoms = parse("GARBAGE");
    assert_eq!(atoms[0].1[0].kind, ParseErrorKind::UnknownWord);
}

#[test]
fn parser_word_comment() {
    let atoms = parse("/*note*/");
    if let (AtomKind::Comment { open, content, close }, _) = &atoms[0] {
        assert_eq!(open.value, "/*");
        assert_eq!(content, "note");
        assert_eq!(close.unwrap().value, "*/");
    } else {
        assert!(false);
    }
}

#[test]
fn parser_missing_command_args() {
    let atoms = parse("land_position 10");
    assert_eq!(atoms.len(), 1);
    assert_eq!(atoms[0].1.len(), 1);
    assert_eq!(atoms[0].1[0].kind, ParseErrorKind::MissingCommandArgs);
}

#[test]
fn atom_descriptions() {
    let atoms = rms_check::parser::parse_atoms(
        "<LAND_GENERATION> #const A 1 #define B create_land { terrain_type GRASS } /* say \"hi\" */ if B else endif",
    );
    let texts: Vec<String> = atoms.iter().map(|atom| atom.to_text()).collect();
    assert_eq!(
        texts,
        vec![
            "Section<LAND_GENERATION>",
            "Const<A, 1>",
            "Define<B>",
            "Command<create_land>",
            "OpenBlock",
            "Command<terrain_type, GRASS>",
            "CloseBlock",
            "Comment<\" say \\\"hi\\\" \">",
            "If<B>",
            "Else",
            "EndIf",
        ]
    );
}

#[test]
fn token_contexts() {
    let land = rms_check::tokens::lookup_token(b"create_land").unwrap();
    assert!(matches!(land.context(), rms_check::TokenContext::Command(Some("<LAND_GENERATION>"))));
    let setup = rms_check::tokens::lookup_token(b"<PLAYER_SETUP>").unwrap();
    assert!(matches!(setup.context(), rms_check::TokenContext::Section));
    let flow = rms_check::tokens::lookup_token(b"if").unwrap();
    assert!(matches!(flow.context(), rms_check::TokenContext::Flow));
    let base_size = rms_check::tokens::lookup_token(b"base_size").unwrap();
    assert!(matches!(base_size.context(), rms_check::TokenContext::AnyOf(_)));
}

#[test]
fn parser_slash_star_slash_opens_comment() {
    let atoms = parse("/*/ hi */ random_placement");
    assert_eq!(atoms.len(), 2);
    if let (AtomKind::Comment { open, content, close }, warnings) = &atoms[0] {
        assert_eq!(open.value, "/*/");
        assert_eq!(content, " hi ");
        assert_eq!(close.unwrap().value, "*/");
        assert!(warnings.is_empty());
    } else {
        assert!(false);
    }
    if let (AtomKind::Command { name, .. }, _) = &atoms[1] {
        assert_eq!(name.value, "random_placement");
    } else {
        assert!(false);
    }
    let atoms = parse("/*/");
    assert_eq!(atoms.len(), 1);
    assert_eq!(atoms[0].1[0].kind, ParseErrorKind::UnclosedComment);
}

#[test]
fn parser_calls_end_with_none() {
    let mut parser = Parser::new(FileId::new(0), "if A endif");
    let first = parser.next().unwrap();
    assert!(matches!(first.0.kind, AtomKind::If { .. }));
    let second = parser.next().unwrap();
    assert!(matches!(second.0.kind, AtomKind::EndIf { .. }));
    assert!(parser.next().is_none());
    assert!(parser.next().is_none());
}

#[test]
fn well_nested_groups_leave_nesting_empty() {
    let source = "{ if A base_size 1 elseif B { } else start_random percent_chance 10 { } \
                  percent_chance 20 end_random endif } start_random end_random";
    let file = rms_check::RMSFile::from_string("test.rms", source);
    let mut state = rms_check::ParseState::new(&file, rms_check::Compatibility::Conquerors);
    let mut parser = Parser::new(FileId::new(0), source);
    let mut count = 0;
    while let Some((atom, _)) = parser.next() {
        assert!(state.update_nesting(&atom).is_none());
        count += 1;
    }
    assert_eq!(count, 17);
    assert!(state.nesting().is_empty());
}
