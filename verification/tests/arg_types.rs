use rms_check::{
    is_numeric, is_valid_rnd, ArgTypesLint, ByteIndex, Compatibility, Definitions, Lint, RMSCheck,
    RMSFile, Severity, SourceLocation,
};

#[test]
fn is_numeric_test() {
    assert!(is_numeric("10"));
    assert!(is_numeric("432543"));
    assert!(!is_numeric("rnd(1,3)"));
    assert!(!is_numeric("SOMEVAL"));
}

#[test]
fn is_valid_rnd_test() {
    assert_eq!(is_valid_rnd("rnd(1,2)"), (true, None));
    assert_eq!(is_valid_rnd("rnd(4,2)"), (true, None));
    assert_eq!(
        is_valid_rnd("rnd(4, 2)"),
        (false, Some("rnd(4,2)".to_string()))
    );
    assert_eq!(is_valid_rnd("SOMEVAL"), (false, None));
    assert_eq!(is_valid_rnd("42"), (false, None));
}

#[test]
fn is_numeric_edges() {
    assert!(is_numeric("-35"));
    assert!(is_numeric("+7"));
    assert!(is_numeric("2147483647"));
    assert!(!is_numeric("2147483648"));
    assert!(is_numeric("-2147483648"));
    assert!(!is_numeric("-"));
    assert!(!is_numeric(""));
    assert!(!is_numeric("1.5"));
}

#[test]
fn is_valid_rnd_edges() {
    assert_eq!(is_valid_rnd("rnd(5)"), (true, None));
    assert_eq!(is_valid_rnd("rnd(-1,+2,3)"), (true, None));
    assert_eq!(is_valid_rnd("rnd()"), (false, None));
    assert_eq!(is_valid_rnd("rnd(1,)"), (false, None));
    assert_eq!(is_valid_rnd("RND(1,2)"), (false, None));
    assert_eq!(
        is_valid_rnd("rnd( 1 ,\u{3000}2 )"),
        (false, Some("rnd(1,2)".to_string()))
    );
    assert_eq!(is_valid_rnd("rnd(a, b)"), (false, None));
}

fn arg_types_check(source: &str, compatibility: Compatibility, definitions: &str) -> Vec<rms_check::Diagnostic> {
    let file = RMSFile::from_string_with_definitions(
        "test.rms",
        source,
        Definitions {
            aoc: definitions.to_string(),
            hd: definitions.to_string(),
            wk: definitions.to_string(),
        },
    );
    RMSCheck::new()
        .compatibility(compatibility)
        .with_lint(Lint::ArgTypes(ArgTypesLint::new()))
        .check(&file)
        .into_diagnostics()
}

#[test]
fn base_elevation() {
    let filename = "base_elevation.rms";
    let file = RMSFile::from_string(filename, "create_land { base_elevation 8 }");
    let result = RMSCheck::new()
        .with_lint(Lint::ArgTypes(ArgTypesLint::new()))
        .check(&file);
    let file = file.file_id();

    let mut warnings = result.iter();
    let first = warnings.next().unwrap();
    assert!(warnings.next().is_none());
    assert_eq!(first.severity(), Severity::Warning);
    assert_eq!(first.code(), Some("arg-types"));
    assert_eq!(first.message(), "Elevation value out of range (0 or 1-7)");
    assert_eq!(
        first.location(),
        SourceLocation::new(file, ByteIndex::from(29), ByteIndex::from(30))
    );
}

/// The definitions of the WololoKingdoms `random_map.def` that these scripts use.
const WK_TEAM_DEFINITIONS: &str = "#const AT_COLOR 0 #const AT_PLAYER 1 #const AT_TEAM 2";

#[test]
fn assign_to() {
    let filename = "assign_to.rms";
    let file = RMSFile::from_string(filename, "create_land { assign_to X 0 0 0 }");
    let result = RMSCheck::new()
        .with_lint(Lint::ArgTypes(ArgTypesLint::new()))
        .check(&file);
    let file_id = file.file_id();
    let mut warnings = result.iter();
    assert_eq!(
        warnings.next().unwrap().message(),
        "Token `X` is never defined"
    );
    let first = warnings.next().unwrap();
    assert!(warnings.next().is_none());
    assert_eq!(first.severity(), Severity::Warning);
    assert_eq!(first.code(), Some("arg-types"));
    assert_eq!(
        first.message(),
        "`assign_to` Target must be AT_COLOR, AT_PLAYER, AT_TEAM"
    );
    assert_eq!(
        first.location(),
        SourceLocation::new(file_id, ByteIndex::from(24), ByteIndex::from(25))
    );

    let result = arg_types_check(
        "create_land { assign_to AT_TEAM 0 0 0 }",
        Compatibility::WololoKingdoms,
        WK_TEAM_DEFINITIONS,
    );
    assert_eq!(result.iter().count(), 0);

    let result = arg_types_check(
        "create_land { assign_to AT_TEAM 7 -2 4 }",
        Compatibility::WololoKingdoms,
        WK_TEAM_DEFINITIONS,
    );
    let mut warnings = result.iter();
    let first = warnings.next().unwrap();
    assert_eq!(first.severity(), Severity::Warning);
    assert_eq!(first.code(), Some("arg-types"));
    assert_eq!(
        first.message(),
        "`assign_to` Number must be 1-4 when targeting AT_TEAM"
    );
    let second = warnings.next().unwrap();
    assert_eq!(second.severity(), Severity::Warning);
    assert_eq!(second.code(), Some("arg-types"));
    assert_eq!(second.message(), "`assign_to` Mode must be 0 (random selection) or -1 (ordered selection) when targeting AT_TEAM");
    let third = warnings.next().unwrap();
    assert_eq!(third.severity(), Severity::Warning);
    assert_eq!(third.code(), Some("arg-types"));
    assert_eq!(
        third.message(),
        "`assign_to` Flags must only combine flags 1 and 2"
    );
    assert!(warnings.next().is_none());
}

#[test]
fn arg_types_messages() {
    let result = arg_types_check(
        "create_object SCOUT { number_of_objects SOMEVAL } create_object",
        Compatibility::Conquerors,
        "#const SCOUT 448",
    );
    let messages: Vec<&str> = result.iter().map(|d| d.message()).collect();
    assert_eq!(
        messages,
        vec![
            "Expected a number argument to number_of_objects, but got SOMEVAL",
            "Missing arguments to create_object",
        ]
    );
    assert!(result.iter().all(|d| d.severity() == Severity::Error));
    assert!(result.iter().all(|d| d.code() == Some("arg-types")));
}

#[test]
fn arg_types_rnd_suggestion() {
    let result = arg_types_check(
        "create_object SCOUT { number_of_objects (1,5) }",
        Compatibility::Conquerors,
        "#const SCOUT 448",
    );
    assert_eq!(result.len(), 1);
    assert_eq!(result[0].suggestions().len(), 1);
    assert_eq!(result[0].suggestions()[0].message(), "Did you forget the `rnd`?");
    assert_eq!(result[0].suggestions()[0].replacement(), Some("rnd(1,5)"));
    let result = arg_types_check(
        "create_object SCOUT { number_of_objects rnd(1,5) }",
        Compatibility::Conquerors,
        "#const SCOUT 448",
    );
    assert!(result.is_empty());
}

#[test]
fn arg_types_const_name_checks() {
    let result = arg_types_check(
        "#const GOLD 66 #define WATER_MAP create_object 0 { } create_object GOLF { }",
        Compatibility::Conquerors,
        "",
    );
    let messages: Vec<&str> = result.iter().map(|d| d.message()).collect();
    assert_eq!(messages[0], "Expected a const name, but got a number 0");
    assert_eq!(messages[1], "Token `GOLF` is never defined");
    assert_eq!(result[1].suggestions()[0].replacement(), Some("GOLD"));
    assert_eq!(result[1].suggestions()[0].message(), "Did you mean `GOLD`?");

    let result = arg_types_check(
        "#define WATER_MAP create_object WATER_MAP { }",
        Compatibility::Conquerors,
        "",
    );
    assert_eq!(
        result[0].message(),
        "Expected a valued token (defined using #const), got a valueless token `WATER_MAP` (defined using #define)"
    );
}

#[test]
fn arg_types_ranges() {
    let result = arg_types_check(
        "create_land { land_position 101 -1 zone 99 }",
        Compatibility::Conquerors,
        "",
    );
    let messages: Vec<&str> = result.iter().map(|d| d.message()).collect();
    assert_eq!(
        messages,
        vec![
            "Land position out of range (0-100)",
            "Land position out of range (0-99)",
            "`zone 99` crashes the game",
        ]
    );
}

#[test]
fn rnd_replacement_is_itself_valid() {
    let (valid, replacement) = is_valid_rnd("rnd( 10 , 20 )");
    assert!(!valid);
    let replacement = replacement.unwrap();
    assert_eq!(replacement, "rnd(10,20)");
    assert_eq!(is_valid_rnd(&replacement), (true, None));
}
