use rms_check::FormatOptions;

#[test]
fn basic_section() {
    assert_eq!(
        rms_check::formatter::format(
            "<PLAYER_SETUP> <OBJECTS_GENERATION>",
            FormatOptions::default()
        ),
        "<PLAYER_SETUP>\r\n\r\n<OBJECTS_GENERATION>\r\n"
    );
}

#[test]
fn command_group() {
    assert_eq!(
        rms_check::formatter::format(
            "create_terrain GRASS3 { base_terrain DESERT border_fuzziness 5 }",
            FormatOptions::default()
        ),
        "create_terrain GRASS3 {\r\n  base_terrain     DESERT\r\n  border_fuzziness 5\r\n}\r\n"
    );
}

#[test]
fn format_options_example() {
    let opts = FormatOptions::default()
        .tab_size(8)
        .use_spaces(true)
        .align_arguments(false);
    let result = rms_check::formatter::format(
        "create_object SCOUT { number_of_objects 5 group_placement_radius 3 }",
        opts,
    );
    assert_eq!(
        result,
        "create_object SCOUT {\r\n        number_of_objects 5\r\n        group_placement_radius 3\r\n}\r\n"
    );
}

#[test]
fn format_tabs() {
    let opts = FormatOptions::default().use_spaces(false);
    assert_eq!(
        rms_check::formatter::format("create_object SCOUT { number_of_objects 5 }", opts),
        "create_object SCOUT {\r\n\tnumber_of_objects 5\r\n}\r\n"
    );
}

#[test]
fn format_if_statement() {
    assert_eq!(
        rms_check::formatter::format(
            "if TINY_MAP #define SMALL elseif HUGE_MAP #define BIG else #define MID endif",
            FormatOptions::default()
        ),
        "if TINY_MAP\r\n  #define SMALL\r\nelseif HUGE_MAP\r\n  #define BIG\r\nelse\r\n  #define MID\r\nendif\r\n\r\n"
    );
}

#[test]
fn format_simple_random() {
    assert_eq!(
        rms_check::formatter::format(
            "start_random percent_chance 5 #define A percent_chance 95 #define B end_random",
            FormatOptions::default()
        ),
        "start_random\r\n  percent_chance 5  #define A\r\n  percent_chance 95 #define B\r\nend_random\r\n"
    );
}

#[test]
fn format_comments() {
    assert_eq!(
        rms_check::formatter::format("/* one\n* two\n   three */", FormatOptions::default()),
        "/* one\r\n * * two\r\n *    three \r\n */\r\n"
    );
    assert_eq!(
        rms_check::formatter::format("#define A /* note */", FormatOptions::default()),
        "#define A /* note */\r\n"
    );
}

#[test]
fn format_keeps_padding_lines() {
    assert_eq!(
        rms_check::formatter::format("#define A\n\n#define B", FormatOptions::default()),
        "#define A\r\n\r\n#define B\r\n"
    );
}

#[test]
fn format_empty() {
    assert_eq!(rms_check::formatter::format("", FormatOptions::default()), "");
    assert_eq!(rms_check::formatter::format("  \n ", FormatOptions::default()), "");
}

#[test]
fn tab_size_only_matters_with_spaces() {
    let source = "create_object SCOUT { if TINY_MAP number_of_objects 5 endif group_placement_radius 3 }";
    let tabs = FormatOptions::default().use_spaces(false);
    let narrow = rms_check::formatter::format(source, tabs.tab_size(2));
    let wide = rms_check::formatter::format(source, tabs.tab_size(8));
    assert_eq!(narrow, wide);
    let spaces = FormatOptions::default();
    assert_ne!(
        rms_check::formatter::format(source, spaces.tab_size(2)),
        rms_check::formatter::format(source, spaces.tab_size(8))
    );
}
