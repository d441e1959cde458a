use rms_check::{
    ActorAreasMatchLint, AttributeCaseLint, CommentContentsLint, Compatibility, CompatibilityLint,
    DeadBranchCommentLint, Definitions, Diagnostic, IncludeLint, IncorrectSectionLint, Lint,
    RMSCheck, RMSFile, Severity, UnknownAttributeLint,
};

fn run(source: &str, lint: Lint) -> Vec<Diagnostic> {
    let file = RMSFile::from_string("test.rms", source);
    RMSCheck::new().with_lint(lint).check(&file).into_diagnostics()
}

fn messages(diagnostics: &[Diagnostic]) -> Vec<&str> {
    diagnostics.iter().map(|d| d.message()).collect()
}

#[test]
fn actor_areas_match() {
    let filename = "actor_area.rms";
    let file = RMSFile::from_string(
        filename,
        "
            create_object VILLAGER {
                actor_area 1
            }
            create_object VILLAGER {
                actor_area_to_place_in 1
            }
            create_object VILLAGER {
                avoid_actor_area 1
            }
            create_object VILLAGER {
                actor_area_to_place_in 17
            }
            create_object VILLAGER {
                avoid_actor_area 18
            }
        ",
    );
    let result = RMSCheck::new()
        .with_lint(Lint::ActorAreasMatch(ActorAreasMatchLint::new()))
        .check(&file);
    let mut warnings = result.iter();

    let first = warnings.next().unwrap();
    assert_eq!(first.severity(), Severity::Warning);
    assert_eq!(first.code(), Some("actor-areas-match"));
    assert_eq!(first.message(), "Actor area 17 is never defined");
    let second = warnings.next().unwrap();
    assert_eq!(second.severity(), Severity::Warning);
    assert_eq!(second.code(), Some("actor-areas-match"));
    assert_eq!(second.message(), "Actor area 18 is never defined");
    assert!(warnings.next().is_none());
}

#[test]
fn nomad_resources() {
    let file = RMSFile::from_string("nomad.rms", "<PLAYER_SETUP> nomad_resources");

    let checks = [
        (Compatibility::All, false),
        (Compatibility::HDEdition, true),
        (Compatibility::UserPatch14, true),
        (Compatibility::DefinitiveEdition, true),
    ];

    for (compatibility, supports_nomad_resources) in &checks {
        let result = RMSCheck::new()
            .compatibility(*compatibility)
            .with_lint(Lint::Compatibility(CompatibilityLint::new()))
            .check(&file);

        let mut warnings = result.iter();
        if *supports_nomad_resources {
            assert!(warnings.next().is_none());
        } else {
            // No compatibility setting: nomad_resources may be unsupported
            let first = warnings.next().unwrap();
            assert!(warnings.next().is_none());
            assert_eq!(first.severity(), Severity::Warning);
            assert_eq!(first.code(), Some("compatibility"));
        }
    }
}

#[test]
fn compatibility_effects_and_conditions() {
    let result = run(
        "<PLAYER_SETUP> effect_amount GAIA_SET_PLAYER_DATA TYPE_UNIT 0 0",
        Lint::Compatibility(CompatibilityLint::new()),
    );
    assert_eq!(messages(&result), vec!["RMS Effects require UserPatch 1.5"]);
    assert_eq!(result[0].code(), Some("compatibility"));
    let result = run(
        "if UP_EXTENSION <PLAYER_SETUP> effect_amount A B 0 0 endif",
        Lint::Compatibility(CompatibilityLint::new()),
    );
    assert!(result.is_empty());
    let result = run(
        "/* Compatibility: UserPatch 1.5 */ <PLAYER_SETUP> effect_amount A B 0 0",
        Lint::Compatibility(CompatibilityLint::new()),
    );
    assert!(result.is_empty());
}

#[test]
fn zip_maps_default_to_userpatch_15() {
    let file = RMSFile::from_string("ZR@map.rms", "<PLAYER_SETUP> effect_amount A B 0 0");
    let result = RMSCheck::new()
        .with_lint(Lint::Compatibility(CompatibilityLint::new()))
        .check(&file);
    assert!(!result.has_warnings());
}

#[test]
fn include_include() {
    let result = run(
        "#include_drs random_map.def 54000 #include random_map.def",
        Lint::Include(IncludeLint::new()),
    );
    assert_eq!(
        messages(&result),
        vec![
            "#include_drs can only be used by builtin maps",
            "#include can only be used by builtin maps",
        ]
    );
    assert!(result.iter().all(|d| d.severity() == Severity::Error && d.code() == Some("include")));
    assert_eq!(result[1].suggestions().len(), 1);
}

#[test]
fn incorrect_section() {
    let result = run(
        "create_object SCOUT { } <LAND_GENERATION> create_object SCOUT { }",
        Lint::IncorrectSection(IncorrectSectionLint::new()),
    );
    assert_eq!(
        messages(&result),
        vec![
            "Command can only appear in section <OBJECTS_GENERATION>, but no section has been started.",
            "Command is invalid in section <LAND_GENERATION>, it can only appear in <OBJECTS_GENERATION>",
        ]
    );
    assert_eq!(result[1].labels().len(), 1);
    assert_eq!(result[1].labels()[0].message(), "Section started here");
}

#[test]
fn attribute_case() {
    let result = run(
        "create_object SCOUT { Number_Of_Objects 5 }",
        Lint::AttributeCase(AttributeCaseLint::new()),
    );
    assert_eq!(messages(&result), vec!["Unknown attribute `Number_Of_Objects`"]);
    assert_eq!(result[0].fixes().len(), 1);
    assert_eq!(result[0].fixes()[0].replacement(), Some("number_of_objects"));
    assert_eq!(result[0].fixes()[0].message(), "Convert to lowercase");
}

#[test]
fn unknown_attribute_suggests_a_token() {
    let result = run(
        "create_object SCOUT { number_of_object 5 12 }",
        Lint::UnknownAttribute(UnknownAttributeLint::new()),
    );
    let result: Vec<Diagnostic> =
        result.into_iter().filter(|d| d.code() != Some("parse")).collect();
    assert_eq!(messages(&result), vec!["Unknown attribute `number_of_object`"]);
    assert_eq!(result[0].code(), Some("unknown-attribute"));
    assert_eq!(result[0].suggestions()[0].replacement(), Some("number_of_objects"));
    assert_eq!(
        result[0].suggestions()[0].message(),
        "Did you mean `number_of_objects`?"
    );
}

#[test]
fn dead_branch_comment() {
    let result = run(
        "start_random percent_chance 50 /* note */ end_random",
        Lint::DeadBranchComment(DeadBranchCommentLint::new()),
    );
    assert_eq!(
        messages(&result),
        vec!["Using comments inside `start_random` groups is potentially dangerous."]
    );
    assert_eq!(result[0].code(), Some("dead-comment"));
}

#[test]
fn comment_contents() {
    let file = RMSFile::from_string_with_definitions(
        "test.rms",
        "#const FOO 1 if A /* land_percent */ endif start_random /* FOO */ end_random",
        Definitions { aoc: String::new(), hd: String::new(), wk: String::new() },
    );
    let result = RMSCheck::new()
        .with_lint(Lint::CommentContents(CommentContentsLint::new()))
        .check(&file)
        .into_diagnostics();
    assert_eq!(
        messages(&result),
        vec![
            "This close comment may be ignored because a previous command is expecting more arguments",
            "Using constant names in comments inside `start_random` or `if` statements can be dangerous, because the game may interpret them as other tokens instead.",
        ]
    );
    assert!(result.iter().all(|d| d.code() == Some("comment-contents")));
    assert_eq!(result[1].suggestions()[0].replacement(), Some("`FOO`"));
}

#[test]
fn default_check_reports_parse_errors_and_nesting() {
    let file = RMSFile::from_string("test.rms", "<PLAYER_SETUP> GARBAGE }");
    let result = RMSCheck::default().check(&file).into_diagnostics();
    let codes: Vec<Option<&str>> = result.iter().map(|d| d.code()).collect();
    assert!(codes.contains(&Some("unknown-attribute")));
    assert!(codes.contains(&Some("parse")));
    assert!(result.iter().any(|d| d.message() == "UnknownWord" && d.severity() == Severity::ParseError));
    assert!(result.iter().any(|d| d.message() == "Unbalanced `}`\u{2013}nothing is open" && d.code().is_none()));
}

#[test]
fn balanced_nesting_has_no_warning() {
    let file = RMSFile::from_string(
        "test.rms",
        "<PLAYER_SETUP> if A start_random percent_chance 10 #define B end_random else endif",
    );
    let result = RMSCheck::new().check(&file).into_diagnostics();
    assert!(result.is_empty());
    let file = RMSFile::from_string("test.rms", "<PLAYER_SETUP> if A");
    let result = RMSCheck::new().check(&file).into_diagnostics();
    assert!(result.is_empty());
    let file = RMSFile::from_string("test.rms", "<PLAYER_SETUP> endif");
    let result = RMSCheck::new().check(&file).into_diagnostics();
    assert_eq!(messages(&result), vec!["Unbalanced `endif`\u{2013}nothing is open"]);
}

#[test]
fn version_features_inside_version_checks() {
    let readme_example = "/* Compatibility: Conquerors */
<OBJECTS_GENERATION>
create_object GOLD {
  if UP_EXTENSION
    resource_delta 200
  endif
  if DE_AVAILABLE
    actor_area 123
  endif
}";
    let result = run(readme_example, Lint::Compatibility(CompatibilityLint::new()));
    assert!(result.is_empty());

    let result = run(
        "<OBJECTS_GENERATION> create_object GOLD { resource_delta 200 actor_area 123 }",
        Lint::Compatibility(CompatibilityLint::new()),
    );
    assert_eq!(
        messages(&result),
        vec![
            "Resource deltas require UserPatch 1.4",
            "Actor areas are only supported in the Definitive Edition"
        ]
    );
    let result = run(
        "if UP_AVAILABLE <OBJECTS_GENERATION> create_object GOLD { resource_delta 200 } endif",
        Lint::Compatibility(CompatibilityLint::new()),
    );
    assert!(result.is_empty());
}
