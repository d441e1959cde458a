//! The tokens of the random map script language: their names, arguments and where they may
//! appear.

use crate::text::bytes_eq;
use vstd::prelude::*;
use vstd::string::*;

verus! {

/// Argument type.
#[derive(Debug, Clone, Copy, PartialEq, Eq, Structural)]
pub enum ArgType {
    /// A literal string (no spaces)
    Word,
    /// A number.
    Number,
    /// A token with a value (#const)
    Token,
    /// A possibly-present token (#define)
    OptionalToken,
    /// A file name.
    Filename,
}

/// Defines where a token can appear.
#[derive(Debug)]
pub enum TokenContext {
    /// A flow control token, can appear just about anywhere.
    Flow,
    /// A <SECTION> token (must be top level)
    Section,
    /// A command with braces at the top level, with an optional <SECTION> restriction.
    Command(Option<&'static str>),
    /// An attribute at the top level, with an optional <SECTION> restriction.
    TopLevelAttribute(Option<&'static str>),
    /// An attribute inside a block, with an optional block type restriction.
    Attribute(Option<&'static str>),
    /// This token can occur in multiple places.
    AnyOf(Vec<TokenContext>),
}

/// One place where a token may appear, with each section or block name as its bytes.
pub enum PlaceView {
    Flow,
    Section,
    Command(Option<Seq<u8>>),
    TopLevelAttribute(Option<Seq<u8>>),
    Attribute(Option<Seq<u8>>),
    /// A list of places inside a list of places.
    Nested,
}

/// Where a token may appear: one place, or any of several.
#[verifier::ext_equal]
pub enum ContextView {
    One(PlaceView),
    AnyOf(Seq<PlaceView>),
}

/// A section or block name as its bytes.
pub open spec fn opt_bytes(o: Option<&'static str>) -> Option<Seq<u8>> {
    match o {
        Some(s) => Some(s.spec_bytes()),
        None => None,
    }
}

/// The place that a context names.
pub open spec fn place_view(c: TokenContext) -> PlaceView {
    match c {
        TokenContext::Flow => PlaceView::Flow,
        TokenContext::Section => PlaceView::Section,
        TokenContext::Command(o) => PlaceView::Command(opt_bytes(o)),
        TokenContext::TopLevelAttribute(o) => PlaceView::TopLevelAttribute(opt_bytes(o)),
        TokenContext::Attribute(o) => PlaceView::Attribute(opt_bytes(o)),
        TokenContext::AnyOf(_) => PlaceView::Nested,
    }
}

/// The content of a [`TokenContext`].
pub open spec fn context_view(c: TokenContext) -> ContextView {
    match c {
        TokenContext::AnyOf(v) => ContextView::AnyOf(v@.map_values(|x: TokenContext| place_view(x))),
        _ => ContextView::One(place_view(c)),
    }
}

/// What the lints need to know of a token: its name, its argument types (always four slots,
/// the used ones first), and the section it is restricted to when it is a command.
pub struct TokenInfo {
    pub name: Seq<u8>,
    pub arg_types: Seq<Option<ArgType>>,
    pub section: Option<Seq<u8>>,
}

/// The number of arguments: the slots before the first empty one.
pub open spec fn spec_arg_len(a: Seq<Option<ArgType>>) -> int {
    if a.len() < 1 || a[0] is None {
        0
    } else if a.len() < 2 || a[1] is None {
        1
    } else if a.len() < 3 || a[2] is None {
        2
    } else if a.len() < 4 || a[3] is None {
        3
    } else {
        4
    }
}

/// Describes some characteristic of a token.
#[derive(Debug)]
pub struct TokenType {
    /// The token's name, as it appears in RMS source code.
    pub name: &'static str,
    /// The context where the token may appear.
    context: TokenContext,
    /// The argument types for this token.
    arg_types: [Option<ArgType>; 4],
}

impl TokenType {
    /// The name, argument types and section restriction of this token.
    pub closed spec fn info(&self) -> TokenInfo {
        TokenInfo {
            name: self.name.spec_bytes(),
            arg_types: self.arg_types@,
            section: match self.context {
                TokenContext::Command(Some(s)) => Some(s.spec_bytes()),
                _ => None,
            },
        }
    }

    /// The context where this token may appear.
    pub closed spec fn spec_context(&self) -> TokenContext {
        self.context
    }

    /// Get the type of the `n`th argument.
    pub fn arg_type(&self, n: u8) -> (r: &Option<ArgType>)
        requires
            n < 4,
        ensures
            *r == self.info().arg_types[n as int],
    {
        &self.arg_types[n as usize]
    }

    /// Get the number of arguments required by this token type.
    pub fn arg_len(&self) -> (r: u8)
        ensures
            r == spec_arg_len(self.info().arg_types),
    {
        if self.arg_types[0].is_none() {
            0
        } else if self.arg_types[1].is_none() {
            1
        } else if self.arg_types[2].is_none() {
            2
        } else if self.arg_types[3].is_none() {
            3
        } else {
            4
        }
    }

    /// Get the context for this type, describing where it can appear.
    pub fn context(&self) -> (r: &TokenContext)
        ensures
            *r == self.spec_context(),
    {
        &self.context
    }

    /// The section this token is restricted to, when it is a command that has one.
    pub fn command_section(&self) -> (r: Option<&'static str>)
        ensures
            match r {
                Some(s) => self.info().section == Some(s.spec_bytes()),
                None => self.info().section is None,
            },
    {
        match &self.context {
            TokenContext::Command(Some(s)) => Some(*s),
            _ => None,
        }
    }
}

/// The first known token at or after `i` whose name is `name`.
pub open spec fn find_token_from(name: Seq<u8>, i: int) -> Option<int>
    decreases TOKEN_COUNT - i,
{
    if i < 0 || i >= TOKEN_COUNT {
        None
    } else if spec_token_name(i) == name {
        Some(i)
    } else {
        find_token_from(name, i + 1)
    }
}

/// The known token named `name`, if there is one.
pub open spec fn spec_lookup(name: Seq<u8>) -> Option<TokenInfo> {
    match find_token_from(name, 0) {
        Some(i) => Some(spec_token_info(i)),
        None => None,
    }
}

/// Where the known token named `name` may appear, if there is one.
pub open spec fn spec_lookup_context(name: Seq<u8>) -> Option<ContextView> {
    match find_token_from(name, 0) {
        Some(i) => Some(spec_token_context(i)),
        None => None,
    }
}

/// Is `name` the name of a known token?
pub open spec fn is_token_name(name: Seq<u8>) -> bool {
    find_token_from(name, 0) is Some
}

/// The names of all known tokens, in table order.
pub open spec fn spec_token_names() -> Seq<Seq<u8>> {
    Seq::new(TOKEN_COUNT as nat, |i: int| spec_token_name(i))
}

proof fn lemma_find_token_from(name: Seq<u8>, i: int)
    requires
        0 <= i <= TOKEN_COUNT,
    ensures
        find_token_from(name, i) matches Some(j) ==> i <= j < TOKEN_COUNT && spec_token_name(j)
            == name,
    decreases TOKEN_COUNT - i,
{
    if i < TOKEN_COUNT && spec_token_name(i) != name {
        lemma_find_token_from(name, i + 1);
    }
}

/// The index of the known token named `name`.
pub fn find_token(name: &[u8]) -> (r: Option<usize>)
    ensures
        match r {
            Some(i) => find_token_from(name@, 0) == Some(i as int) && i < TOKEN_COUNT,
            None => find_token_from(name@, 0) is None,
        },
{
    let mut i: usize = 0;
    while i < TOKEN_COUNT
        invariant
            i <= TOKEN_COUNT,
            find_token_from(name@, 0) == find_token_from(name@, i as int),
        decreases TOKEN_COUNT - i,
    {
        if bytes_eq(name, token_name(i).as_bytes()) {
            return Some(i);
        }
        i = i + 1;
    }
    None
}

/// The known token named `name`, if there is one.
pub fn lookup_token(name: &[u8]) -> (r: Option<TokenType>)
    ensures
        match (r, spec_lookup(name@)) {
            (Some(t), Some(info)) => t.info() == info,
            (None, None) => true,
            _ => false,
        },
        match r {
            Some(t) => spec_lookup_context(name@) == Some(context_view(t.spec_context())),
            None => spec_lookup_context(name@) is None,
        },
{
    match find_token(name) {
        Some(i) => Some(token_at(i)),
        None => None,
    }
}

/// Is `name` the name of a known token?
pub fn is_token(name: &[u8]) -> (r: bool)
    ensures
        r == is_token_name(name@),
{
    find_token(name).is_some()
}

/// The names of all known tokens, in table order.
pub fn token_names() -> (r: Vec<&'static str>)
    ensures
        r@.map_values(|s: &'static str| s.spec_bytes()) == spec_token_names(),
{
    let mut r: Vec<&'static str> = Vec::new();
    let mut i: usize = 0;
    while i < TOKEN_COUNT
        invariant
            i <= TOKEN_COUNT,
            r@.map_values(|s: &'static str| s.spec_bytes()) =~= spec_token_names().take(i as int),
        decreases TOKEN_COUNT - i,
    {
        let ghost before = r@;
        let n = token_name(i);
        r.push(n);
        assert(r@.map_values(|s: &'static str| s.spec_bytes()) =~= before.map_values(
            |s: &'static str| s.spec_bytes(),
        ).push(n.spec_bytes()));
        assert(spec_token_names().take(i + 1) =~= spec_token_names().take(i as int).push(
            spec_token_name(i as int),
        ));
        i = i + 1;
    }
    assert(spec_token_names().take(TOKEN_COUNT as int) =~= spec_token_names());
    r
}

/// The number of known tokens.
pub const TOKEN_COUNT: usize = 116;

/// The name of the `i`th known token.
pub open spec fn spec_token_name(i: int) -> Seq<u8> {
    if i == 0 {
        "#define".spec_bytes()
    } else if i == 1 {
        "#undefine".spec_bytes()
    } else if i == 2 {
        "#const".spec_bytes()
    } else if i == 3 {
        "if".spec_bytes()
    } else if i == 4 {
        "elseif".spec_bytes()
    } else if i == 5 {
        "else".spec_bytes()
    } else if i == 6 {
        "endif".spec_bytes()
    } else if i == 7 {
        "start_random".spec_bytes()
    } else if i == 8 {
        "percent_chance".spec_bytes()
    } else if i == 9 {
        "end_random".spec_bytes()
    } else if i == 10 {
        "#include".spec_bytes()
    } else if i == 11 {
        "#include_drs".spec_bytes()
    } else if i == 12 {
        "<PLAYER_SETUP>".spec_bytes()
    } else if i == 13 {
        "<LAND_GENERATION>".spec_bytes()
    } else if i == 14 {
        "<ELEVATION_GENERATION>".spec_bytes()
    } else if i == 15 {
        "<TERRAIN_GENERATION>".spec_bytes()
    } else if i == 16 {
        "<CLIFF_GENERATION>".spec_bytes()
    } else if i == 17 {
        "<OBJECTS_GENERATION>".spec_bytes()
    } else if i == 18 {
        "<CONNECTION_GENERATION>".spec_bytes()
    } else if i == 19 {
        "color_correction".spec_bytes()
    } else if i == 20 {
        "ai_info_map_type".spec_bytes()
    } else if i == 21 {
        "random_placement".spec_bytes()
    } else if i == 22 {
        "direct_placement".spec_bytes()
    } else if i == 23 {
        "circle_placement".spec_bytes()
    } else if i == 24 {
        "circle_radius".spec_bytes()
    } else if i == 25 {
        "nomad_resources".spec_bytes()
    } else if i == 26 {
        "grouped_by_team".spec_bytes()
    } else if i == 27 {
        "effect_amount".spec_bytes()
    } else if i == 28 {
        "effect_percent".spec_bytes()
    } else if i == 29 {
        "terrain_state".spec_bytes()
    } else if i == 30 {
        "weather_type".spec_bytes()
    } else if i == 31 {
        "guard_state".spec_bytes()
    } else if i == 32 {
        "enable_waves".spec_bytes()
    } else if i == 33 {
        "terrain_mask".spec_bytes()
    } else if i == 34 {
        "create_land".spec_bytes()
    } else if i == 35 {
        "create_player_lands".spec_bytes()
    } else if i == 36 {
        "land_percent".spec_bytes()
    } else if i == 37 {
        "land_position".spec_bytes()
    } else if i == 38 {
        "land_id".spec_bytes()
    } else if i == 39 {
        "terrain_type".spec_bytes()
    } else if i == 40 {
        "base_size".spec_bytes()
    } else if i == 41 {
        "base_elevation".spec_bytes()
    } else if i == 42 {
        "left_border".spec_bytes()
    } else if i == 43 {
        "right_border".spec_bytes()
    } else if i == 44 {
        "top_border".spec_bytes()
    } else if i == 45 {
        "bottom_border".spec_bytes()
    } else if i == 46 {
        "border_fuzziness".spec_bytes()
    } else if i == 47 {
        "zone".spec_bytes()
    } else if i == 48 {
        "set_zone_by_team".spec_bytes()
    } else if i == 49 {
        "set_zone_randomly".spec_bytes()
    } else if i == 50 {
        "other_zone_avoidance_distance".spec_bytes()
    } else if i == 51 {
        "assign_to_player".spec_bytes()
    } else if i == 52 {
        "assign_to".spec_bytes()
    } else if i == 53 {
        "base_terrain".spec_bytes()
    } else if i == 54 {
        "min_number_of_cliffs".spec_bytes()
    } else if i == 55 {
        "max_number_of_cliffs".spec_bytes()
    } else if i == 56 {
        "min_length_of_cliff".spec_bytes()
    } else if i == 57 {
        "max_length_of_cliff".spec_bytes()
    } else if i == 58 {
        "cliff_curliness".spec_bytes()
    } else if i == 59 {
        "min_distance_cliffs".spec_bytes()
    } else if i == 60 {
        "min_terrain_distance".spec_bytes()
    } else if i == 61 {
        "create_terrain".spec_bytes()
    } else if i == 62 {
        "percent_of_land".spec_bytes()
    } else if i == 63 {
        "number_of_tiles".spec_bytes()
    } else if i == 64 {
        "number_of_clumps".spec_bytes()
    } else if i == 65 {
        "set_scale_by_groups".spec_bytes()
    } else if i == 66 {
        "set_scale_by_size".spec_bytes()
    } else if i == 67 {
        "spacing_to_other_terrain_types".spec_bytes()
    } else if i == 68 {
        "height_limits".spec_bytes()
    } else if i == 69 {
        "set_flat_terrain_only".spec_bytes()
    } else if i == 70 {
        "set_avoid_player_start_areas".spec_bytes()
    } else if i == 71 {
        "clumping_factor".spec_bytes()
    } else if i == 72 {
        "base_layer".spec_bytes()
    } else if i == 73 {
        "create_object".spec_bytes()
    } else if i == 74 {
        "set_scaling_to_map_size".spec_bytes()
    } else if i == 75 {
        "set_scaling_to_player_number".spec_bytes()
    } else if i == 76 {
        "number_of_groups".spec_bytes()
    } else if i == 77 {
        "number_of_objects".spec_bytes()
    } else if i == 78 {
        "group_variance".spec_bytes()
    } else if i == 79 {
        "group_placement_radius".spec_bytes()
    } else if i == 80 {
        "set_loose_grouping".spec_bytes()
    } else if i == 81 {
        "set_tight_grouping".spec_bytes()
    } else if i == 82 {
        "terrain_to_place_on".spec_bytes()
    } else if i == 83 {
        "layer_to_place_on".spec_bytes()
    } else if i == 84 {
        "set_gaia_object_only".spec_bytes()
    } else if i == 85 {
        "set_place_for_every_player".spec_bytes()
    } else if i == 86 {
        "place_on_specific_land_id".spec_bytes()
    } else if i == 87 {
        "min_distance_to_players".spec_bytes()
    } else if i == 88 {
        "max_distance_to_players".spec_bytes()
    } else if i == 89 {
        "max_distance_to_other_zones".spec_bytes()
    } else if i == 90 {
        "min_distance_group_placement".spec_bytes()
    } else if i == 91 {
        "temp_min_distance_group_placement".spec_bytes()
    } else if i == 92 {
        "resource_delta".spec_bytes()
    } else if i == 93 {
        "avoid_forest_zone".spec_bytes()
    } else if i == 94 {
        "place_on_forest_zone".spec_bytes()
    } else if i == 95 {
        "avoid_cliff_zone".spec_bytes()
    } else if i == 96 {
        "actor_area".spec_bytes()
    } else if i == 97 {
        "actor_area_radius".spec_bytes()
    } else if i == 98 {
        "actor_area_to_place_in".spec_bytes()
    } else if i == 99 {
        "avoid_actor_area".spec_bytes()
    } else if i == 100 {
        "avoid_all_actor_areas".spec_bytes()
    } else if i == 101 {
        "force_placement".spec_bytes()
    } else if i == 102 {
        "find_closest".spec_bytes()
    } else if i == 103 {
        "second_object".spec_bytes()
    } else if i == 104 {
        "create_connect_all_players_land".spec_bytes()
    } else if i == 105 {
        "create_connect_teams_lands".spec_bytes()
    } else if i == 106 {
        "create_connect_same_land_zones".spec_bytes()
    } else if i == 107 {
        "create_connect_all_lands".spec_bytes()
    } else if i == 108 {
        "create_connect_to_nonplayer_land".spec_bytes()
    } else if i == 109 {
        "replace_terrain".spec_bytes()
    } else if i == 110 {
        "terrain_cost".spec_bytes()
    } else if i == 111 {
        "terrain_size".spec_bytes()
    } else if i == 112 {
        "default_terrain_replacement".spec_bytes()
    } else if i == 113 {
        "create_elevation".spec_bytes()
    } else if i == 114 {
        "spacing".spec_bytes()
    } else {
        "enable_balanced_elevation".spec_bytes()
    }
}

/// What is known of the `i`th known token.
pub open spec fn spec_token_info(i: int) -> TokenInfo {
    if i <= 7 {
        token_info_part_0(i)
    } else if i <= 15 {
        token_info_part_1(i)
    } else if i <= 23 {
        token_info_part_2(i)
    } else if i <= 31 {
        token_info_part_3(i)
    } else if i <= 39 {
        token_info_part_4(i)
    } else if i <= 47 {
        token_info_part_5(i)
    } else if i <= 55 {
        token_info_part_6(i)
    } else if i <= 63 {
        token_info_part_7(i)
    } else if i <= 71 {
        token_info_part_8(i)
    } else if i <= 79 {
        token_info_part_9(i)
    } else if i <= 87 {
        token_info_part_10(i)
    } else if i <= 95 {
        token_info_part_11(i)
    } else if i <= 103 {
        token_info_part_12(i)
    } else if i <= 111 {
        token_info_part_13(i)
    } else {
        token_info_part_14(i)
    }
}

/// What is known of the `i`th known token, for `0 <= i <= 7`.
pub open spec fn token_info_part_0(i: int) -> TokenInfo {
    if i == 0 {
        TokenInfo { name: "#define".spec_bytes(), arg_types: seq![Some(ArgType::Word), None, None, None], section: None }
    } else if i == 1 {
        TokenInfo { name: "#undefine".spec_bytes(), arg_types: seq![Some(ArgType::Word), None, None, None], section: None }
    } else if i == 2 {
        TokenInfo { name: "#const".spec_bytes(), arg_types: seq![Some(ArgType::Word), Some(ArgType::Number), None, None], section: None }
    } else if i == 3 {
        TokenInfo { name: "if".spec_bytes(), arg_types: seq![Some(ArgType::OptionalToken), None, None, None], section: None }
    } else if i == 4 {
        TokenInfo { name: "elseif".spec_bytes(), arg_types: seq![Some(ArgType::OptionalToken), None, None, None], section: None }
    } else if i == 5 {
        TokenInfo { name: "else".spec_bytes(), arg_types: seq![None, None, None, None], section: None }
    } else if i == 6 {
        TokenInfo { name: "endif".spec_bytes(), arg_types: seq![None, None, None, None], section: None }
    } else {
        TokenInfo { name: "start_random".spec_bytes(), arg_types: seq![None, None, None, None], section: None }
    }
}

/// What is known of the `i`th known token, for `8 <= i <= 15`.
pub open spec fn token_info_part_1(i: int) -> TokenInfo {
    if i == 8 {
        TokenInfo { name: "percent_chance".spec_bytes(), arg_types: seq![Some(ArgType::Number), None, None, None], section: None }
    } else if i == 9 {
        TokenInfo { name: "end_random".spec_bytes(), arg_types: seq![None, None, None, None], section: None }
    } else if i == 10 {
        TokenInfo { name: "#include".spec_bytes(), arg_types: seq![Some(ArgType::Filename), None, None, None], section: None }
    } else if i == 11 {
        TokenInfo { name: "#include_drs".spec_bytes(), arg_types: seq![Some(ArgType::Filename), Some(ArgType::Number), None, None], section: None }
    } else if i == 12 {
        TokenInfo { name: "<PLAYER_SETUP>".spec_bytes(), arg_types: seq![None, None, None, None], section: None }
    } else if i == 13 {
        TokenInfo { name: "<LAND_GENERATION>".spec_bytes(), arg_types: seq![None, None, None, None], section: None }
    } else if i == 14 {
        TokenInfo { name: "<ELEVATION_GENERATION>".spec_bytes(), arg_types: seq![None, None, None, None], section: None }
    } else {
        TokenInfo { name: "<TERRAIN_GENERATION>".spec_bytes(), arg_types: seq![None, None, None, None], section: None }
    }
}

/// What is known of the `i`th known token, for `16 <= i <= 23`.
pub open spec fn token_info_part_2(i: int) -> TokenInfo {
    if i == 16 {
        TokenInfo { name: "<CLIFF_GENERATION>".spec_bytes(), arg_types: seq![None, None, None, None], section: None }
    } else if i == 17 {
        TokenInfo { name: "<OBJECTS_GENERATION>".spec_bytes(), arg_types: seq![None, None, None, None], section: None }
    } else if i == 18 {
        TokenInfo { name: "<CONNECTION_GENERATION>".spec_bytes(), arg_types: seq![None, None, None, None], section: None }
    } else if i == 19 {
        TokenInfo { name: "color_correction".spec_bytes(), arg_types: seq![Some(ArgType::Token), None, None, None], section: None }
    } else if i == 20 {
        TokenInfo { name: "ai_info_map_type".spec_bytes(), arg_types: seq![Some(ArgType::Token), Some(ArgType::Number), Some(ArgType::Number), Some(ArgType::Number)], section: None }
    } else if i == 21 {
        TokenInfo { name: "random_placement".spec_bytes(), arg_types: seq![None, None, None, None], section: None }
    } else if i == 22 {
        TokenInfo { name: "direct_placement".spec_bytes(), arg_types: seq![None, None, None, None], section: None }
    } else {
        TokenInfo { name: "circle_placement".spec_bytes(), arg_types: seq![None, None, None, None], section: None }
    }
}

/// What is known of the `i`th known token, for `24 <= i <= 31`.
pub open spec fn token_info_part_3(i: int) -> TokenInfo {
    if i == 24 {
        TokenInfo { name: "circle_radius".spec_bytes(), arg_types: seq![Some(ArgType::Number), None, None, None], section: None }
    } else if i == 25 {
        TokenInfo { name: "nomad_resources".spec_bytes(), arg_types: seq![None, None, None, None], section: None }
    } else if i == 26 {
        TokenInfo { name: "grouped_by_team".spec_bytes(), arg_types: seq![None, None, None, None], section: None }
    } else if i == 27 {
        TokenInfo { name: "effect_amount".spec_bytes(), arg_types: seq![Some(ArgType::Token), Some(ArgType::Token), Some(ArgType::Token), Some(ArgType::Number)], section: Some("<PLAYER_SETUP>".spec_bytes()) }
    } else if i == 28 {
        TokenInfo { name: "effect_percent".spec_bytes(), arg_types: seq![Some(ArgType::Token), Some(ArgType::Token), Some(ArgType::Token), Some(ArgType::Number)], section: Some("<PLAYER_SETUP>".spec_bytes()) }
    } else if i == 29 {
        TokenInfo { name: "terrain_state".spec_bytes(), arg_types: seq![Some(ArgType::Number), Some(ArgType::Number), Some(ArgType::Number), Some(ArgType::Number)], section: None }
    } else if i == 30 {
        TokenInfo { name: "weather_type".spec_bytes(), arg_types: seq![Some(ArgType::Number), Some(ArgType::Number), Some(ArgType::Number), Some(ArgType::Number)], section: None }
    } else {
        TokenInfo { name: "guard_state".spec_bytes(), arg_types: seq![Some(ArgType::Token), Some(ArgType::Token), Some(ArgType::Number), Some(ArgType::Number)], section: None }
    }
}

/// What is known of the `i`th known token, for `32 <= i <= 39`.
pub open spec fn token_info_part_4(i: int) -> TokenInfo {
    if i == 32 {
        TokenInfo { name: "enable_waves".spec_bytes(), arg_types: seq![Some(ArgType::Number), None, None, None], section: None }
    } else if i == 33 {
        TokenInfo { name: "terrain_mask".spec_bytes(), arg_types: seq![Some(ArgType::Number), None, None, None], section: None }
    } else if i == 34 {
        TokenInfo { name: "create_land".spec_bytes(), arg_types: seq![None, None, None, None], section: Some("<LAND_GENERATION>".spec_bytes()) }
    } else if i == 35 {
        TokenInfo { name: "create_player_lands".spec_bytes(), arg_types: seq![None, None, None, None], section: Some("<LAND_GENERATION>".spec_bytes()) }
    } else if i == 36 {
        TokenInfo { name: "land_percent".spec_bytes(), arg_types: seq![Some(ArgType::Number), None, None, None], section: None }
    } else if i == 37 {
        TokenInfo { name: "land_position".spec_bytes(), arg_types: seq![Some(ArgType::Number), Some(ArgType::Number), None, None], section: None }
    } else if i == 38 {
        TokenInfo { name: "land_id".spec_bytes(), arg_types: seq![Some(ArgType::Number), None, None, None], section: None }
    } else {
        TokenInfo { name: "terrain_type".spec_bytes(), arg_types: seq![Some(ArgType::Token), None, None, None], section: None }
    }
}

/// What is known of the `i`th known token, for `40 <= i <= 47`.
pub open spec fn token_info_part_5(i: int) -> TokenInfo {
    if i == 40 {
        TokenInfo { name: "base_size".spec_bytes(), arg_types: seq![Some(ArgType::Number), None, None, None], section: None }
    } else if i == 41 {
        TokenInfo { name: "base_elevation".spec_bytes(), arg_types: seq![Some(ArgType::Number), None, None, None], section: None }
    } else if i == 42 {
        TokenInfo { name: "left_border".spec_bytes(), arg_types: seq![Some(ArgType::Number), None, None, None], section: None }
    } else if i == 43 {
        TokenInfo { name: "right_border".spec_bytes(), arg_types: seq![Some(ArgType::Number), None, None, None], section: None }
    } else if i == 44 {
        TokenInfo { name: "top_border".spec_bytes(), arg_types: seq![Some(ArgType::Number), None, None, None], section: None }
    } else if i == 45 {
        TokenInfo { name: "bottom_border".spec_bytes(), arg_types: seq![Some(ArgType::Number), None, None, None], section: None }
    } else if i == 46 {
        TokenInfo { name: "border_fuzziness".spec_bytes(), arg_types: seq![Some(ArgType::Number), None, None, None], section: None }
    } else {
        TokenInfo { name: "zone".spec_bytes(), arg_types: seq![Some(ArgType::Number), None, None, None], section: None }
    }
}

/// What is known of the `i`th known token, for `48 <= i <= 55`.
pub open spec fn token_info_part_6(i: int) -> TokenInfo {
    if i == 48 {
        TokenInfo { name: "set_zone_by_team".spec_bytes(), arg_types: seq![None, None, None, None], section: None }
    } else if i == 49 {
        TokenInfo { name: "set_zone_randomly".spec_bytes(), arg_types: seq![None, None, None, None], section: None }
    } else if i == 50 {
        TokenInfo { name: "other_zone_avoidance_distance".spec_bytes(), arg_types: seq![Some(ArgType::Number), None, None, None], section: None }
    } else if i == 51 {
        TokenInfo { name: "assign_to_player".spec_bytes(), arg_types: seq![Some(ArgType::Number), None, None, None], section: None }
    } else if i == 52 {
        TokenInfo { name: "assign_to".spec_bytes(), arg_types: seq![Some(ArgType::Token), Some(ArgType::Number), Some(ArgType::Number), Some(ArgType::Number)], section: None }
    } else if i == 53 {
        TokenInfo { name: "base_terrain".spec_bytes(), arg_types: seq![Some(ArgType::Token), None, None, None], section: None }
    } else if i == 54 {
        TokenInfo { name: "min_number_of_cliffs".spec_bytes(), arg_types: seq![Some(ArgType::Number), None, None, None], section: None }
    } else {
        TokenInfo { name: "max_number_of_cliffs".spec_bytes(), arg_types: seq![Some(ArgType::Number), None, None, None], section: None }
    }
}

/// What is known of the `i`th known token, for `56 <= i <= 63`.
pub open spec fn token_info_part_7(i: int) -> TokenInfo {
    if i == 56 {
        TokenInfo { name: "min_length_of_cliff".spec_bytes(), arg_types: seq![Some(ArgType::Number), None, None, None], section: None }
    } else if i == 57 {
        TokenInfo { name: "max_length_of_cliff".spec_bytes(), arg_types: seq![Some(ArgType::Number), None, None, None], section: None }
    } else if i == 58 {
        TokenInfo { name: "cliff_curliness".spec_bytes(), arg_types: seq![Some(ArgType::Number), None, None, None], section: None }
    } else if i == 59 {
        TokenInfo { name: "min_distance_cliffs".spec_bytes(), arg_types: seq![Some(ArgType::Number), None, None, None], section: None }
    } else if i == 60 {
        TokenInfo { name: "min_terrain_distance".spec_bytes(), arg_types: seq![Some(ArgType::Number), None, None, None], section: None }
    } else if i == 61 {
        TokenInfo { name: "create_terrain".spec_bytes(), arg_types: seq![Some(ArgType::Token), None, None, None], section: Some("<TERRAIN_GENERATION>".spec_bytes()) }
    } else if i == 62 {
        TokenInfo { name: "percent_of_land".spec_bytes(), arg_types: seq![Some(ArgType::Number), None, None, None], section: None }
    } else {
        TokenInfo { name: "number_of_tiles".spec_bytes(), arg_types: seq![Some(ArgType::Number), None, None, None], section: None }
    }
}

/// What is known of the `i`th known token, for `64 <= i <= 71`.
pub open spec fn token_info_part_8(i: int) -> TokenInfo {
    if i == 64 {
        TokenInfo { name: "number_of_clumps".spec_bytes(), arg_types: seq![Some(ArgType::Number), None, None, None], section: None }
    } else if i == 65 {
        TokenInfo { name: "set_scale_by_groups".spec_bytes(), arg_types: seq![None, None, None, None], section: None }
    } else if i == 66 {
        TokenInfo { name: "set_scale_by_size".spec_bytes(), arg_types: seq![None, None, None, None], section: None }
    } else if i == 67 {
        TokenInfo { name: "spacing_to_other_terrain_types".spec_bytes(), arg_types: seq![Some(ArgType::Number), None, None, None], section: None }
    } else if i == 68 {
        TokenInfo { name: "height_limits".spec_bytes(), arg_types: seq![Some(ArgType::Number), Some(ArgType::Number), None, None], section: None }
    } else if i == 69 {
        TokenInfo { name: "set_flat_terrain_only".spec_bytes(), arg_types: seq![None, None, None, None], section: None }
    } else if i == 70 {
        TokenInfo { name: "set_avoid_player_start_areas".spec_bytes(), arg_types: seq![None, None, None, None], section: None }
    } else {
        TokenInfo { name: "clumping_factor".spec_bytes(), arg_types: seq![Some(ArgType::Number), None, None, None], section: None }
    }
}

/// What is known of the `i`th known token, for `72 <= i <= 79`.
pub open spec fn token_info_part_9(i: int) -> TokenInfo {
    if i == 72 {
        TokenInfo { name: "base_layer".spec_bytes(), arg_types: seq![Some(ArgType::Token), None, None, None], section: None }
    } else if i == 73 {
        TokenInfo { name: "create_object".spec_bytes(), arg_types: seq![Some(ArgType::Token), None, None, None], section: Some("<OBJECTS_GENERATION>".spec_bytes()) }
    } else if i == 74 {
        TokenInfo { name: "set_scaling_to_map_size".spec_bytes(), arg_types: seq![None, None, None, None], section: None }
    } else if i == 75 {
        TokenInfo { name: "set_scaling_to_player_number".spec_bytes(), arg_types: seq![None, None, None, None], section: None }
    } else if i == 76 {
        TokenInfo { name: "number_of_groups".spec_bytes(), arg_types: seq![Some(ArgType::Number), None, None, None], section: None }
    } else if i == 77 {
        TokenInfo { name: "number_of_objects".spec_bytes(), arg_types: seq![Some(ArgType::Number), None, None, None], section: None }
    } else if i == 78 {
        TokenInfo { name: "group_variance".spec_bytes(), arg_types: seq![Some(ArgType::Number), None, None, None], section: None }
    } else {
        TokenInfo { name: "group_placement_radius".spec_bytes(), arg_types: seq![Some(ArgType::Number), None, None, None], section: None }
    }
}

/// What is known of the `i`th known token, for `80 <= i <= 87`.
pub open spec fn token_info_part_10(i: int) -> TokenInfo {
    if i == 80 {
        TokenInfo { name: "set_loose_grouping".spec_bytes(), arg_types: seq![None, None, None, None], section: None }
    } else if i == 81 {
        TokenInfo { name: "set_tight_grouping".spec_bytes(), arg_types: seq![None, None, None, None], section: None }
    } else if i == 82 {
        TokenInfo { name: "terrain_to_place_on".spec_bytes(), arg_types: seq![Some(ArgType::Token), None, None, None], section: None }
    } else if i == 83 {
        TokenInfo { name: "layer_to_place_on".spec_bytes(), arg_types: seq![Some(ArgType::Token), None, None, None], section: None }
    } else if i == 84 {
        TokenInfo { name: "set_gaia_object_only".spec_bytes(), arg_types: seq![None, None, None, None], section: None }
    } else if i == 85 {
        TokenInfo { name: "set_place_for_every_player".spec_bytes(), arg_types: seq![None, None, None, None], section: None }
    } else if i == 86 {
        TokenInfo { name: "place_on_specific_land_id".spec_bytes(), arg_types: seq![Some(ArgType::Number), None, None, None], section: None }
    } else {
        TokenInfo { name: "min_distance_to_players".spec_bytes(), arg_types: seq![Some(ArgType::Number), None, None, None], section: None }
    }
}

/// What is known of the `i`th known token, for `88 <= i <= 95`.
pub open spec fn token_info_part_11(i: int) -> TokenInfo {
    if i == 88 {
        TokenInfo { name: "max_distance_to_players".spec_bytes(), arg_types: seq![Some(ArgType::Number), None, None, None], section: None }
    } else if i == 89 {
        TokenInfo { name: "max_distance_to_other_zones".spec_bytes(), arg_types: seq![Some(ArgType::Number), None, None, None], section: None }
    } else if i == 90 {
        TokenInfo { name: "min_distance_group_placement".spec_bytes(), arg_types: seq![Some(ArgType::Number), None, None, None], section: None }
    } else if i == 91 {
        TokenInfo { name: "temp_min_distance_group_placement".spec_bytes(), arg_types: seq![Some(ArgType::Number), None, None, None], section: None }
    } else if i == 92 {
        TokenInfo { name: "resource_delta".spec_bytes(), arg_types: seq![Some(ArgType::Number), None, None, None], section: None }
    } else if i == 93 {
        TokenInfo { name: "avoid_forest_zone".spec_bytes(), arg_types: seq![Some(ArgType::Number), None, None, None], section: None }
    } else if i == 94 {
        TokenInfo { name: "place_on_forest_zone".spec_bytes(), arg_types: seq![None, None, None, None], section: None }
    } else {
        TokenInfo { name: "avoid_cliff_zone".spec_bytes(), arg_types: seq![Some(ArgType::Number), None, None, None], section: None }
    }
}

/// What is known of the `i`th known token, for `96 <= i <= 103`.
pub open spec fn token_info_part_12(i: int) -> TokenInfo {
    if i == 96 {
        TokenInfo { name: "actor_area".spec_bytes(), arg_types: seq![Some(ArgType::Number), None, None, None], section: None }
    } else if i == 97 {
        TokenInfo { name: "actor_area_radius".spec_bytes(), arg_types: seq![Some(ArgType::Number), None, None, None], section: None }
    } else if i == 98 {
        TokenInfo { name: "actor_area_to_place_in".spec_bytes(), arg_types: seq![Some(ArgType::Number), None, None, None], section: None }
    } else if i == 99 {
        TokenInfo { name: "avoid_actor_area".spec_bytes(), arg_types: seq![Some(ArgType::Number), None, None, None], section: None }
    } else if i == 100 {
        TokenInfo { name: "avoid_all_actor_areas".spec_bytes(), arg_types: seq![None, None, None, None], section: None }
    } else if i == 101 {
        TokenInfo { name: "force_placement".spec_bytes(), arg_types: seq![None, None, None, None], section: None }
    } else if i == 102 {
        TokenInfo { name: "find_closest".spec_bytes(), arg_types: seq![None, None, None, None], section: None }
    } else {
        TokenInfo { name: "second_object".spec_bytes(), arg_types: seq![Some(ArgType::Token), None, None, None], section: None }
    }
}

/// What is known of the `i`th known token, for `104 <= i <= 111`.
pub open spec fn token_info_part_13(i: int) -> TokenInfo {
    if i == 104 {
        TokenInfo { name: "create_connect_all_players_land".spec_bytes(), arg_types: seq![None, None, None, None], section: Some("<CONNECTION_GENERATION>".spec_bytes()) }
    } else if i == 105 {
        TokenInfo { name: "create_connect_teams_lands".spec_bytes(), arg_types: seq![None, None, None, None], section: Some("<CONNECTION_GENERATION>".spec_bytes()) }
    } else if i == 106 {
        TokenInfo { name: "create_connect_same_land_zones".spec_bytes(), arg_types: seq![None, None, None, None], section: Some("<CONNECTION_GENERATION>".spec_bytes()) }
    } else if i == 107 {
        TokenInfo { name: "create_connect_all_lands".spec_bytes(), arg_types: seq![None, None, None, None], section: Some("<CONNECTION_GENERATION>".spec_bytes()) }
    } else if i == 108 {
        TokenInfo { name: "create_connect_to_nonplayer_land".spec_bytes(), arg_types: seq![None, None, None, None], section: Some("<CONNECTION_GENERATION>".spec_bytes()) }
    } else if i == 109 {
        TokenInfo { name: "replace_terrain".spec_bytes(), arg_types: seq![Some(ArgType::Token), Some(ArgType::Token), None, None], section: None }
    } else if i == 110 {
        TokenInfo { name: "terrain_cost".spec_bytes(), arg_types: seq![Some(ArgType::Token), Some(ArgType::Number), None, None], section: None }
    } else {
        TokenInfo { name: "terrain_size".spec_bytes(), arg_types: seq![Some(ArgType::Token), Some(ArgType::Number), Some(ArgType::Number), None], section: None }
    }
}

/// What is known of the `i`th known token, for `112 <= i <= 115`.
pub open spec fn token_info_part_14(i: int) -> TokenInfo {
    if i == 112 {
        TokenInfo { name: "default_terrain_replacement".spec_bytes(), arg_types: seq![Some(ArgType::Token), None, None, None], section: None }
    } else if i == 113 {
        TokenInfo { name: "create_elevation".spec_bytes(), arg_types: seq![Some(ArgType::Number), None, None, None], section: Some("<ELEVATION_GENERATION>".spec_bytes()) }
    } else if i == 114 {
        TokenInfo { name: "spacing".spec_bytes(), arg_types: seq![Some(ArgType::Number), None, None, None], section: None }
    } else {
        TokenInfo { name: "enable_balanced_elevation".spec_bytes(), arg_types: seq![None, None, None, None], section: None }
    }
}

/// Where the `i`th known token may appear.
pub open spec fn spec_token_context(i: int) -> ContextView {
    if i <= 7 {
        token_context_part_0(i)
    } else if i <= 15 {
        token_context_part_1(i)
    } else if i <= 23 {
        token_context_part_2(i)
    } else if i <= 31 {
        token_context_part_3(i)
    } else if i <= 39 {
        token_context_part_4(i)
    } else if i <= 47 {
        token_context_part_5(i)
    } else if i <= 55 {
        token_context_part_6(i)
    } else if i <= 63 {
        token_context_part_7(i)
    } else if i <= 71 {
        token_context_part_8(i)
    } else if i <= 79 {
        token_context_part_9(i)
    } else if i <= 87 {
        token_context_part_10(i)
    } else if i <= 95 {
        token_context_part_11(i)
    } else if i <= 103 {
        token_context_part_12(i)
    } else if i <= 111 {
        token_context_part_13(i)
    } else {
        token_context_part_14(i)
    }
}

/// Where the `i`th known token may appear, for `0 <= i <= 7`.
pub open spec fn token_context_part_0(i: int) -> ContextView {
    if i == 0 {
        ContextView::One(PlaceView::Flow)
    } else if i == 1 {
        ContextView::One(PlaceView::Flow)
    } else if i == 2 {
        ContextView::One(PlaceView::Flow)
    } else if i == 3 {
        ContextView::One(PlaceView::Flow)
    } else if i == 4 {
        ContextView::One(PlaceView::Flow)
    } else if i == 5 {
        ContextView::One(PlaceView::Flow)
    } else if i == 6 {
        ContextView::One(PlaceView::Flow)
    } else {
        ContextView::One(PlaceView::Flow)
    }
}

/// Where the `i`th known token may appear, for `8 <= i <= 15`.
pub open spec fn token_context_part_1(i: int) -> ContextView {
    if i == 8 {
        ContextView::One(PlaceView::Flow)
    } else if i == 9 {
        ContextView::One(PlaceView::Flow)
    } else if i == 10 {
        ContextView::One(PlaceView::Flow)
    } else if i == 11 {
        ContextView::One(PlaceView::Flow)
    } else if i == 12 {
        ContextView::One(PlaceView::Section)
    } else if i == 13 {
        ContextView::One(PlaceView::Section)
    } else if i == 14 {
        ContextView::One(PlaceView::Section)
    } else {
        ContextView::One(PlaceView::Section)
    }
}

/// Where the `i`th known token may appear, for `16 <= i <= 23`.
pub open spec fn token_context_part_2(i: int) -> ContextView {
    if i == 16 {
        ContextView::One(PlaceView::Section)
    } else if i == 17 {
        ContextView::One(PlaceView::Section)
    } else if i == 18 {
        ContextView::One(PlaceView::Section)
    } else if i == 19 {
        ContextView::One(PlaceView::TopLevelAttribute(None))
    } else if i == 20 {
        ContextView::One(PlaceView::TopLevelAttribute(Some("<PLAYER_SETUP>".spec_bytes())))
    } else if i == 21 {
        ContextView::One(PlaceView::TopLevelAttribute(Some("<PLAYER_SETUP>".spec_bytes())))
    } else if i == 22 {
        ContextView::One(PlaceView::TopLevelAttribute(Some("<PLAYER_SETUP>".spec_bytes())))
    } else {
        ContextView::One(PlaceView::TopLevelAttribute(Some("<PLAYER_SETUP>".spec_bytes())))
    }
}

/// Where the `i`th known token may appear, for `24 <= i <= 31`.
pub open spec fn token_context_part_3(i: int) -> ContextView {
    if i == 24 {
        ContextView::One(PlaceView::TopLevelAttribute(Some("<PLAYER_SETUP>".spec_bytes())))
    } else if i == 25 {
        ContextView::One(PlaceView::TopLevelAttribute(Some("<PLAYER_SETUP>".spec_bytes())))
    } else if i == 26 {
        ContextView::One(PlaceView::TopLevelAttribute(Some("<PLAYER_SETUP>".spec_bytes())))
    } else if i == 27 {
        ContextView::One(PlaceView::Command(Some("<PLAYER_SETUP>".spec_bytes())))
    } else if i == 28 {
        ContextView::One(PlaceView::Command(Some("<PLAYER_SETUP>".spec_bytes())))
    } else if i == 29 {
        ContextView::One(PlaceView::TopLevelAttribute(Some("<PLAYER_SETUP>".spec_bytes())))
    } else if i == 30 {
        ContextView::One(PlaceView::TopLevelAttribute(Some("<PLAYER_SETUP>".spec_bytes())))
    } else {
        ContextView::One(PlaceView::TopLevelAttribute(Some("<PLAYER_SETUP>".spec_bytes())))
    }
}

/// Where the `i`th known token may appear, for `32 <= i <= 39`.
pub open spec fn token_context_part_4(i: int) -> ContextView {
    if i == 32 {
        ContextView::One(PlaceView::TopLevelAttribute(Some("<PLAYER_SETUP>".spec_bytes())))
    } else if i == 33 {
        ContextView::One(PlaceView::TopLevelAttribute(Some("<PLAYER_SETUP>".spec_bytes())))
    } else if i == 34 {
        ContextView::One(PlaceView::Command(Some("<LAND_GENERATION>".spec_bytes())))
    } else if i == 35 {
        ContextView::One(PlaceView::Command(Some("<LAND_GENERATION>".spec_bytes())))
    } else if i == 36 {
        ContextView::AnyOf(seq![PlaceView::Attribute(Some("create_land".spec_bytes())), PlaceView::Attribute(Some("create_player_lands".spec_bytes()))])
    } else if i == 37 {
        ContextView::AnyOf(seq![PlaceView::Attribute(Some("create_land".spec_bytes())), PlaceView::Attribute(Some("create_player_lands".spec_bytes()))])
    } else if i == 38 {
        ContextView::AnyOf(seq![PlaceView::Attribute(Some("create_land".spec_bytes())), PlaceView::Attribute(Some("create_player_lands".spec_bytes()))])
    } else {
        ContextView::AnyOf(seq![PlaceView::Attribute(Some("create_land".spec_bytes())), PlaceView::Attribute(Some("create_player_lands".spec_bytes())), PlaceView::Attribute(Some("create_terrain".spec_bytes()))])
    }
}

/// Where the `i`th known token may appear, for `40 <= i <= 47`.
pub open spec fn token_context_part_5(i: int) -> ContextView {
    if i == 40 {
        ContextView::AnyOf(seq![PlaceView::Attribute(Some("create_land".spec_bytes())), PlaceView::Attribute(Some("create_player_lands".spec_bytes()))])
    } else if i == 41 {
        ContextView::AnyOf(seq![PlaceView::Attribute(Some("create_land".spec_bytes())), PlaceView::Attribute(Some("create_player_lands".spec_bytes()))])
    } else if i == 42 {
        ContextView::AnyOf(seq![PlaceView::Attribute(Some("create_land".spec_bytes())), PlaceView::Attribute(Some("create_player_lands".spec_bytes()))])
    } else if i == 43 {
        ContextView::AnyOf(seq![PlaceView::Attribute(Some("create_land".spec_bytes())), PlaceView::Attribute(Some("create_player_lands".spec_bytes()))])
    } else if i == 44 {
        ContextView::AnyOf(seq![PlaceView::Attribute(Some("create_land".spec_bytes())), PlaceView::Attribute(Some("create_player_lands".spec_bytes()))])
    } else if i == 45 {
        ContextView::AnyOf(seq![PlaceView::Attribute(Some("create_land".spec_bytes())), PlaceView::Attribute(Some("create_player_lands".spec_bytes()))])
    } else if i == 46 {
        ContextView::AnyOf(seq![PlaceView::Attribute(Some("create_land".spec_bytes())), PlaceView::Attribute(Some("create_player_lands".spec_bytes()))])
    } else {
        ContextView::AnyOf(seq![PlaceView::Attribute(Some("create_land".spec_bytes())), PlaceView::Attribute(Some("create_player_lands".spec_bytes()))])
    }
}

/// Where the `i`th known token may appear, for `48 <= i <= 55`.
pub open spec fn token_context_part_6(i: int) -> ContextView {
    if i == 48 {
        ContextView::AnyOf(seq![PlaceView::Attribute(Some("create_land".spec_bytes())), PlaceView::Attribute(Some("create_player_lands".spec_bytes()))])
    } else if i == 49 {
        ContextView::AnyOf(seq![PlaceView::Attribute(Some("create_land".spec_bytes())), PlaceView::Attribute(Some("create_player_lands".spec_bytes()))])
    } else if i == 50 {
        ContextView::AnyOf(seq![PlaceView::Attribute(Some("create_land".spec_bytes())), PlaceView::Attribute(Some("create_player_lands".spec_bytes()))])
    } else if i == 51 {
        ContextView::One(PlaceView::Attribute(Some("create_land".spec_bytes())))
    } else if i == 52 {
        ContextView::One(PlaceView::Attribute(Some("create_land".spec_bytes())))
    } else if i == 53 {
        ContextView::AnyOf(seq![PlaceView::TopLevelAttribute(Some("<LAND_GENERATION>".spec_bytes())), PlaceView::Attribute(Some("create_land".spec_bytes())), PlaceView::Attribute(Some("create_player_lands".spec_bytes())), PlaceView::Attribute(Some("create_elevation".spec_bytes())), PlaceView::Attribute(Some("create_terrain".spec_bytes())), PlaceView::Attribute(Some("create_object".spec_bytes()))])
    } else if i == 54 {
        ContextView::One(PlaceView::TopLevelAttribute(Some("<CLIFF_GENERATION>".spec_bytes())))
    } else {
        ContextView::One(PlaceView::TopLevelAttribute(Some("<CLIFF_GENERATION>".spec_bytes())))
    }
}

/// Where the `i`th known token may appear, for `56 <= i <= 63`.
pub open spec fn token_context_part_7(i: int) -> ContextView {
    if i == 56 {
        ContextView::One(PlaceView::TopLevelAttribute(Some("<CLIFF_GENERATION>".spec_bytes())))
    } else if i == 57 {
        ContextView::One(PlaceView::TopLevelAttribute(Some("<CLIFF_GENERATION>".spec_bytes())))
    } else if i == 58 {
        ContextView::One(PlaceView::TopLevelAttribute(Some("<CLIFF_GENERATION>".spec_bytes())))
    } else if i == 59 {
        ContextView::One(PlaceView::TopLevelAttribute(Some("<CLIFF_GENERATION>".spec_bytes())))
    } else if i == 60 {
        ContextView::One(PlaceView::TopLevelAttribute(Some("<CLIFF_GENERATION>".spec_bytes())))
    } else if i == 61 {
        ContextView::One(PlaceView::Command(Some("<TERRAIN_GENERATION>".spec_bytes())))
    } else if i == 62 {
        ContextView::One(PlaceView::Attribute(Some("create_terrain".spec_bytes())))
    } else {
        ContextView::AnyOf(seq![PlaceView::Attribute(Some("create_terrain".spec_bytes())), PlaceView::Attribute(Some("create_elevation".spec_bytes()))])
    }
}

/// Where the `i`th known token may appear, for `64 <= i <= 71`.
pub open spec fn token_context_part_8(i: int) -> ContextView {
    if i == 64 {
        ContextView::AnyOf(seq![PlaceView::Attribute(Some("create_terrain".spec_bytes())), PlaceView::Attribute(Some("create_elevation".spec_bytes()))])
    } else if i == 65 {
        ContextView::AnyOf(seq![PlaceView::Attribute(Some("create_terrain".spec_bytes())), PlaceView::Attribute(Some("create_elevation".spec_bytes()))])
    } else if i == 66 {
        ContextView::AnyOf(seq![PlaceView::Attribute(Some("create_terrain".spec_bytes())), PlaceView::Attribute(Some("create_elevation".spec_bytes()))])
    } else if i == 67 {
        ContextView::One(PlaceView::Attribute(Some("create_terrain".spec_bytes())))
    } else if i == 68 {
        ContextView::One(PlaceView::Attribute(Some("create_terrain".spec_bytes())))
    } else if i == 69 {
        ContextView::One(PlaceView::Attribute(Some("create_terrain".spec_bytes())))
    } else if i == 70 {
        ContextView::One(PlaceView::Attribute(Some("create_terrain".spec_bytes())))
    } else {
        ContextView::One(PlaceView::Attribute(Some("create_terrain".spec_bytes())))
    }
}

/// Where the `i`th known token may appear, for `72 <= i <= 79`.
pub open spec fn token_context_part_9(i: int) -> ContextView {
    if i == 72 {
        ContextView::One(PlaceView::Attribute(Some("create_terrain".spec_bytes())))
    } else if i == 73 {
        ContextView::One(PlaceView::Command(Some("<OBJECTS_GENERATION>".spec_bytes())))
    } else if i == 74 {
        ContextView::One(PlaceView::Attribute(Some("create_object".spec_bytes())))
    } else if i == 75 {
        ContextView::One(PlaceView::Attribute(Some("create_object".spec_bytes())))
    } else if i == 76 {
        ContextView::One(PlaceView::Attribute(Some("create_object".spec_bytes())))
    } else if i == 77 {
        ContextView::One(PlaceView::Attribute(Some("create_object".spec_bytes())))
    } else if i == 78 {
        ContextView::One(PlaceView::Attribute(Some("create_object".spec_bytes())))
    } else {
        ContextView::One(PlaceView::Attribute(Some("create_object".spec_bytes())))
    }
}

/// Where the `i`th known token may appear, for `80 <= i <= 87`.
pub open spec fn token_context_part_10(i: int) -> ContextView {
    if i == 80 {
        ContextView::One(PlaceView::Attribute(Some("create_object".spec_bytes())))
    } else if i == 81 {
        ContextView::One(PlaceView::Attribute(Some("create_object".spec_bytes())))
    } else if i == 82 {
        ContextView::One(PlaceView::Attribute(Some("create_object".spec_bytes())))
    } else if i == 83 {
        ContextView::One(PlaceView::Attribute(Some("create_object".spec_bytes())))
    } else if i == 84 {
        ContextView::One(PlaceView::Attribute(Some("create_object".spec_bytes())))
    } else if i == 85 {
        ContextView::One(PlaceView::Attribute(Some("create_object".spec_bytes())))
    } else if i == 86 {
        ContextView::One(PlaceView::Attribute(Some("create_object".spec_bytes())))
    } else {
        ContextView::One(PlaceView::Attribute(Some("create_object".spec_bytes())))
    }
}

/// Where the `i`th known token may appear, for `88 <= i <= 95`.
pub open spec fn token_context_part_11(i: int) -> ContextView {
    if i == 88 {
        ContextView::One(PlaceView::Attribute(Some("create_object".spec_bytes())))
    } else if i == 89 {
        ContextView::One(PlaceView::Attribute(Some("create_object".spec_bytes())))
    } else if i == 90 {
        ContextView::One(PlaceView::Attribute(Some("create_object".spec_bytes())))
    } else if i == 91 {
        ContextView::One(PlaceView::Attribute(Some("create_object".spec_bytes())))
    } else if i == 92 {
        ContextView::One(PlaceView::Attribute(Some("create_object".spec_bytes())))
    } else if i == 93 {
        ContextView::One(PlaceView::Attribute(Some("create_object".spec_bytes())))
    } else if i == 94 {
        ContextView::One(PlaceView::Attribute(Some("create_object".spec_bytes())))
    } else {
        ContextView::One(PlaceView::Attribute(Some("create_object".spec_bytes())))
    }
}

/// Where the `i`th known token may appear, for `96 <= i <= 103`.
pub open spec fn token_context_part_12(i: int) -> ContextView {
    if i == 96 {
        ContextView::One(PlaceView::Attribute(Some("create_object".spec_bytes())))
    } else if i == 97 {
        ContextView::One(PlaceView::Attribute(Some("create_object".spec_bytes())))
    } else if i == 98 {
        ContextView::One(PlaceView::Attribute(Some("create_object".spec_bytes())))
    } else if i == 99 {
        ContextView::One(PlaceView::Attribute(Some("create_object".spec_bytes())))
    } else if i == 100 {
        ContextView::One(PlaceView::Attribute(Some("create_object".spec_bytes())))
    } else if i == 101 {
        ContextView::One(PlaceView::Attribute(Some("create_object".spec_bytes())))
    } else if i == 102 {
        ContextView::One(PlaceView::Attribute(Some("create_object".spec_bytes())))
    } else {
        ContextView::One(PlaceView::Attribute(Some("create_object".spec_bytes())))
    }
}

/// Where the `i`th known token may appear, for `104 <= i <= 111`.
pub open spec fn token_context_part_13(i: int) -> ContextView {
    if i == 104 {
        ContextView::One(PlaceView::Command(Some("<CONNECTION_GENERATION>".spec_bytes())))
    } else if i == 105 {
        ContextView::One(PlaceView::Command(Some("<CONNECTION_GENERATION>".spec_bytes())))
    } else if i == 106 {
        ContextView::One(PlaceView::Command(Some("<CONNECTION_GENERATION>".spec_bytes())))
    } else if i == 107 {
        ContextView::One(PlaceView::Command(Some("<CONNECTION_GENERATION>".spec_bytes())))
    } else if i == 108 {
        ContextView::One(PlaceView::Command(Some("<CONNECTION_GENERATION>".spec_bytes())))
    } else if i == 109 {
        ContextView::AnyOf(seq![PlaceView::Attribute(Some("create_connect_all_players_land".spec_bytes())), PlaceView::Attribute(Some("create_connect_teams_land".spec_bytes())), PlaceView::Attribute(Some("create_connect_same_land_zones".spec_bytes())), PlaceView::Attribute(Some("create_connect_all_lands".spec_bytes()))])
    } else if i == 110 {
        ContextView::AnyOf(seq![PlaceView::Attribute(Some("create_connect_all_players_land".spec_bytes())), PlaceView::Attribute(Some("create_connect_teams_land".spec_bytes())), PlaceView::Attribute(Some("create_connect_same_land_zones".spec_bytes())), PlaceView::Attribute(Some("create_connect_all_lands".spec_bytes()))])
    } else {
        ContextView::AnyOf(seq![PlaceView::Attribute(Some("create_connect_all_players_land".spec_bytes())), PlaceView::Attribute(Some("create_connect_teams_land".spec_bytes())), PlaceView::Attribute(Some("create_connect_same_land_zones".spec_bytes())), PlaceView::Attribute(Some("create_connect_all_lands".spec_bytes()))])
    }
}

/// Where the `i`th known token may appear, for `112 <= i <= 115`.
pub open spec fn token_context_part_14(i: int) -> ContextView {
    if i == 112 {
        ContextView::AnyOf(seq![PlaceView::Attribute(Some("create_connect_all_players_land".spec_bytes())), PlaceView::Attribute(Some("create_connect_teams_land".spec_bytes())), PlaceView::Attribute(Some("create_connect_same_land_zones".spec_bytes())), PlaceView::Attribute(Some("create_connect_all_lands".spec_bytes()))])
    } else if i == 113 {
        ContextView::One(PlaceView::Command(Some("<ELEVATION_GENERATION>".spec_bytes())))
    } else if i == 114 {
        ContextView::One(PlaceView::Attribute(Some("create_elevation".spec_bytes())))
    } else {
        ContextView::One(PlaceView::Attribute(Some("enable_balanced_elevation".spec_bytes())))
    }
}

/// The name of the `i`th known token.
pub fn token_name(i: usize) -> (r: &'static str)
    requires
        i < TOKEN_COUNT,
    ensures
        r.spec_bytes() == spec_token_name(i as int),
{
    if i == 0 {
        "#define"
    } else if i == 1 {
        "#undefine"
    } else if i == 2 {
        "#const"
    } else if i == 3 {
        "if"
    } else if i == 4 {
        "elseif"
    } else if i == 5 {
        "else"
    } else if i == 6 {
        "endif"
    } else if i == 7 {
        "start_random"
    } else if i == 8 {
        "percent_chance"
    } else if i == 9 {
        "end_random"
    } else if i == 10 {
        "#include"
    } else if i == 11 {
        "#include_drs"
    } else if i == 12 {
        "<PLAYER_SETUP>"
    } else if i == 13 {
        "<LAND_GENERATION>"
    } else if i == 14 {
        "<ELEVATION_GENERATION>"
    } else if i == 15 {
        "<TERRAIN_GENERATION>"
    } else if i == 16 {
        "<CLIFF_GENERATION>"
    } else if i == 17 {
        "<OBJECTS_GENERATION>"
    } else if i == 18 {
        "<CONNECTION_GENERATION>"
    } else if i == 19 {
        "color_correction"
    } else if i == 20 {
        "ai_info_map_type"
    } else if i == 21 {
        "random_placement"
    } else if i == 22 {
        "direct_placement"
    } else if i == 23 {
        "circle_placement"
    } else if i == 24 {
        "circle_radius"
    } else if i == 25 {
        "nomad_resources"
    } else if i == 26 {
        "grouped_by_team"
    } else if i == 27 {
        "effect_amount"
    } else if i == 28 {
        "effect_percent"
    } else if i == 29 {
        "terrain_state"
    } else if i == 30 {
        "weather_type"
    } else if i == 31 {
        "guard_state"
    } else if i == 32 {
        "enable_waves"
    } else if i == 33 {
        "terrain_mask"
    } else if i == 34 {
        "create_land"
    } else if i == 35 {
        "create_player_lands"
    } else if i == 36 {
        "land_percent"
    } else if i == 37 {
        "land_position"
    } else if i == 38 {
        "land_id"
    } else if i == 39 {
        "terrain_type"
    } else if i == 40 {
        "base_size"
    } else if i == 41 {
        "base_elevation"
    } else if i == 42 {
        "left_border"
    } else if i == 43 {
        "right_border"
    } else if i == 44 {
        "top_border"
    } else if i == 45 {
        "bottom_border"
    } else if i == 46 {
        "border_fuzziness"
    } else if i == 47 {
        "zone"
    } else if i == 48 {
        "set_zone_by_team"
    } else if i == 49 {
        "set_zone_randomly"
    } else if i == 50 {
        "other_zone_avoidance_distance"
    } else if i == 51 {
        "assign_to_player"
    } else if i == 52 {
        "assign_to"
    } else if i == 53 {
        "base_terrain"
    } else if i == 54 {
        "min_number_of_cliffs"
    } else if i == 55 {
        "max_number_of_cliffs"
    } else if i == 56 {
        "min_length_of_cliff"
    } else if i == 57 {
        "max_length_of_cliff"
    } else if i == 58 {
        "cliff_curliness"
    } else if i == 59 {
        "min_distance_cliffs"
    } else if i == 60 {
        "min_terrain_distance"
    } else if i == 61 {
        "create_terrain"
    } else if i == 62 {
        "percent_of_land"
    } else if i == 63 {
        "number_of_tiles"
    } else if i == 64 {
        "number_of_clumps"
    } else if i == 65 {
        "set_scale_by_groups"
    } else if i == 66 {
        "set_scale_by_size"
    } else if i == 67 {
        "spacing_to_other_terrain_types"
    } else if i == 68 {
        "height_limits"
    } else if i == 69 {
        "set_flat_terrain_only"
    } else if i == 70 {
        "set_avoid_player_start_areas"
    } else if i == 71 {
        "clumping_factor"
    } else if i == 72 {
        "base_layer"
    } else if i == 73 {
        "create_object"
    } else if i == 74 {
        "set_scaling_to_map_size"
    } else if i == 75 {
        "set_scaling_to_player_number"
    } else if i == 76 {
        "number_of_groups"
    } else if i == 77 {
        "number_of_objects"
    } else if i == 78 {
        "group_variance"
    } else if i == 79 {
        "group_placement_radius"
    } else if i == 80 {
        "set_loose_grouping"
    } else if i == 81 {
        "set_tight_grouping"
    } else if i == 82 {
        "terrain_to_place_on"
    } else if i == 83 {
        "layer_to_place_on"
    } else if i == 84 {
        "set_gaia_object_only"
    } else if i == 85 {
        "set_place_for_every_player"
    } else if i == 86 {
        "place_on_specific_land_id"
    } else if i == 87 {
        "min_distance_to_players"
    } else if i == 88 {
        "max_distance_to_players"
    } else if i == 89 {
        "max_distance_to_other_zones"
    } else if i == 90 {
        "min_distance_group_placement"
    } else if i == 91 {
        "temp_min_distance_group_placement"
    } else if i == 92 {
        "resource_delta"
    } else if i == 93 {
        "avoid_forest_zone"
    } else if i == 94 {
        "place_on_forest_zone"
    } else if i == 95 {
        "avoid_cliff_zone"
    } else if i == 96 {
        "actor_area"
    } else if i == 97 {
        "actor_area_radius"
    } else if i == 98 {
        "actor_area_to_place_in"
    } else if i == 99 {
        "avoid_actor_area"
    } else if i == 100 {
        "avoid_all_actor_areas"
    } else if i == 101 {
        "force_placement"
    } else if i == 102 {
        "find_closest"
    } else if i == 103 {
        "second_object"
    } else if i == 104 {
        "create_connect_all_players_land"
    } else if i == 105 {
        "create_connect_teams_lands"
    } else if i == 106 {
        "create_connect_same_land_zones"
    } else if i == 107 {
        "create_connect_all_lands"
    } else if i == 108 {
        "create_connect_to_nonplayer_land"
    } else if i == 109 {
        "replace_terrain"
    } else if i == 110 {
        "terrain_cost"
    } else if i == 111 {
        "terrain_size"
    } else if i == 112 {
        "default_terrain_replacement"
    } else if i == 113 {
        "create_elevation"
    } else if i == 114 {
        "spacing"
    } else {
        "enable_balanced_elevation"
    }
}

/// A context of several places: `create_land`, `create_player_lands`.
fn places_0() -> (r: TokenContext)
    ensures
        context_view(r) == ContextView::AnyOf(seq![PlaceView::Attribute(Some("create_land".spec_bytes())), PlaceView::Attribute(Some("create_player_lands".spec_bytes()))]),
{
    let r = TokenContext::AnyOf(vec![TokenContext::Attribute(Some("create_land")), TokenContext::Attribute(Some("create_player_lands"))]);
    assert(context_view(r) =~= ContextView::AnyOf(seq![PlaceView::Attribute(Some("create_land".spec_bytes())), PlaceView::Attribute(Some("create_player_lands".spec_bytes()))]));
    r
}

/// A context of several places: `create_land`, `create_player_lands`, `create_terrain`.
fn places_1() -> (r: TokenContext)
    ensures
        context_view(r) == ContextView::AnyOf(seq![PlaceView::Attribute(Some("create_land".spec_bytes())), PlaceView::Attribute(Some("create_player_lands".spec_bytes())), PlaceView::Attribute(Some("create_terrain".spec_bytes()))]),
{
    let r = TokenContext::AnyOf(vec![TokenContext::Attribute(Some("create_land")), TokenContext::Attribute(Some("create_player_lands")), TokenContext::Attribute(Some("create_terrain"))]);
    assert(context_view(r) =~= ContextView::AnyOf(seq![PlaceView::Attribute(Some("create_land".spec_bytes())), PlaceView::Attribute(Some("create_player_lands".spec_bytes())), PlaceView::Attribute(Some("create_terrain".spec_bytes()))]));
    r
}

/// A context of several places: `<LAND_GENERATION>`, `create_land`, `create_player_lands`, `create_elevation`, `create_terrain`, `create_object`.
fn places_2() -> (r: TokenContext)
    ensures
        context_view(r) == ContextView::AnyOf(seq![PlaceView::TopLevelAttribute(Some("<LAND_GENERATION>".spec_bytes())), PlaceView::Attribute(Some("create_land".spec_bytes())), PlaceView::Attribute(Some("create_player_lands".spec_bytes())), PlaceView::Attribute(Some("create_elevation".spec_bytes())), PlaceView::Attribute(Some("create_terrain".spec_bytes())), PlaceView::Attribute(Some("create_object".spec_bytes()))]),
{
    let r = TokenContext::AnyOf(vec![TokenContext::TopLevelAttribute(Some("<LAND_GENERATION>")), TokenContext::Attribute(Some("create_land")), TokenContext::Attribute(Some("create_player_lands")), TokenContext::Attribute(Some("create_elevation")), TokenContext::Attribute(Some("create_terrain")), TokenContext::Attribute(Some("create_object"))]);
    assert(context_view(r) =~= ContextView::AnyOf(seq![PlaceView::TopLevelAttribute(Some("<LAND_GENERATION>".spec_bytes())), PlaceView::Attribute(Some("create_land".spec_bytes())), PlaceView::Attribute(Some("create_player_lands".spec_bytes())), PlaceView::Attribute(Some("create_elevation".spec_bytes())), PlaceView::Attribute(Some("create_terrain".spec_bytes())), PlaceView::Attribute(Some("create_object".spec_bytes()))]));
    r
}

/// A context of several places: `create_terrain`, `create_elevation`.
fn places_3() -> (r: TokenContext)
    ensures
        context_view(r) == ContextView::AnyOf(seq![PlaceView::Attribute(Some("create_terrain".spec_bytes())), PlaceView::Attribute(Some("create_elevation".spec_bytes()))]),
{
    let r = TokenContext::AnyOf(vec![TokenContext::Attribute(Some("create_terrain")), TokenContext::Attribute(Some("create_elevation"))]);
    assert(context_view(r) =~= ContextView::AnyOf(seq![PlaceView::Attribute(Some("create_terrain".spec_bytes())), PlaceView::Attribute(Some("create_elevation".spec_bytes()))]));
    r
}

/// A context of several places: `create_connect_all_players_land`, `create_connect_teams_land`, `create_connect_same_land_zones`, `create_connect_all_lands`.
fn places_4() -> (r: TokenContext)
    ensures
        context_view(r) == ContextView::AnyOf(seq![PlaceView::Attribute(Some("create_connect_all_players_land".spec_bytes())), PlaceView::Attribute(Some("create_connect_teams_land".spec_bytes())), PlaceView::Attribute(Some("create_connect_same_land_zones".spec_bytes())), PlaceView::Attribute(Some("create_connect_all_lands".spec_bytes()))]),
{
    let r = TokenContext::AnyOf(vec![TokenContext::Attribute(Some("create_connect_all_players_land")), TokenContext::Attribute(Some("create_connect_teams_land")), TokenContext::Attribute(Some("create_connect_same_land_zones")), TokenContext::Attribute(Some("create_connect_all_lands"))]);
    assert(context_view(r) =~= ContextView::AnyOf(seq![PlaceView::Attribute(Some("create_connect_all_players_land".spec_bytes())), PlaceView::Attribute(Some("create_connect_teams_land".spec_bytes())), PlaceView::Attribute(Some("create_connect_same_land_zones".spec_bytes())), PlaceView::Attribute(Some("create_connect_all_lands".spec_bytes()))]));
    r
}

/// The `i`th known token, for `0 <= i <= 7`.
#[verifier::spinoff_prover]
fn token_in_0(i: usize) -> (r: TokenType)
    requires
        0 <= i <= 7,
    ensures
        r.info() == spec_token_info(i as int),
        context_view(r.spec_context()) == spec_token_context(i as int),
{
    if i == 0 {
        TokenType { name: "#define", context: TokenContext::Flow, arg_types: [Some(ArgType::Word), None, None, None] }
    } else if i == 1 {
        TokenType { name: "#undefine", context: TokenContext::Flow, arg_types: [Some(ArgType::Word), None, None, None] }
    } else if i == 2 {
        TokenType { name: "#const", context: TokenContext::Flow, arg_types: [Some(ArgType::Word), Some(ArgType::Number), None, None] }
    } else if i == 3 {
        TokenType { name: "if", context: TokenContext::Flow, arg_types: [Some(ArgType::OptionalToken), None, None, None] }
    } else if i == 4 {
        TokenType { name: "elseif", context: TokenContext::Flow, arg_types: [Some(ArgType::OptionalToken), None, None, None] }
    } else if i == 5 {
        TokenType { name: "else", context: TokenContext::Flow, arg_types: [None, None, None, None] }
    } else if i == 6 {
        TokenType { name: "endif", context: TokenContext::Flow, arg_types: [None, None, None, None] }
    } else {
        TokenType { name: "start_random", context: TokenContext::Flow, arg_types: [None, None, None, None] }
    }
}

/// The `i`th known token, for `8 <= i <= 15`.
#[verifier::spinoff_prover]
fn token_in_1(i: usize) -> (r: TokenType)
    requires
        8 <= i <= 15,
    ensures
        r.info() == spec_token_info(i as int),
        context_view(r.spec_context()) == spec_token_context(i as int),
{
    if i == 8 {
        TokenType { name: "percent_chance", context: TokenContext::Flow, arg_types: [Some(ArgType::Number), None, None, None] }
    } else if i == 9 {
        TokenType { name: "end_random", context: TokenContext::Flow, arg_types: [None, None, None, None] }
    } else if i == 10 {
        TokenType { name: "#include", context: TokenContext::Flow, arg_types: [Some(ArgType::Filename), None, None, None] }
    } else if i == 11 {
        TokenType { name: "#include_drs", context: TokenContext::Flow, arg_types: [Some(ArgType::Filename), Some(ArgType::Number), None, None] }
    } else if i == 12 {
        TokenType { name: "<PLAYER_SETUP>", context: TokenContext::Section, arg_types: [None, None, None, None] }
    } else if i == 13 {
        TokenType { name: "<LAND_GENERATION>", context: TokenContext::Section, arg_types: [None, None, None, None] }
    } else if i == 14 {
        TokenType { name: "<ELEVATION_GENERATION>", context: TokenContext::Section, arg_types: [None, None, None, None] }
    } else {
        TokenType { name: "<TERRAIN_GENERATION>", context: TokenContext::Section, arg_types: [None, None, None, None] }
    }
}

/// The `i`th known token, for `16 <= i <= 23`.
#[verifier::spinoff_prover]
fn token_in_2(i: usize) -> (r: TokenType)
    requires
        16 <= i <= 23,
    ensures
        r.info() == spec_token_info(i as int),
        context_view(r.spec_context()) == spec_token_context(i as int),
{
    if i == 16 {
        TokenType { name: "<CLIFF_GENERATION>", context: TokenContext::Section, arg_types: [None, None, None, None] }
    } else if i == 17 {
        TokenType { name: "<OBJECTS_GENERATION>", context: TokenContext::Section, arg_types: [None, None, None, None] }
    } else if i == 18 {
        TokenType { name: "<CONNECTION_GENERATION>", context: TokenContext::Section, arg_types: [None, None, None, None] }
    } else if i == 19 {
        TokenType { name: "color_correction", context: TokenContext::TopLevelAttribute(None), arg_types: [Some(ArgType::Token), None, None, None] }
    } else if i == 20 {
        TokenType { name: "ai_info_map_type", context: TokenContext::TopLevelAttribute(Some("<PLAYER_SETUP>")), arg_types: [Some(ArgType::Token), Some(ArgType::Number), Some(ArgType::Number), Some(ArgType::Number)] }
    } else if i == 21 {
        TokenType { name: "random_placement", context: TokenContext::TopLevelAttribute(Some("<PLAYER_SETUP>")), arg_types: [None, None, None, None] }
    } else if i == 22 {
        TokenType { name: "direct_placement", context: TokenContext::TopLevelAttribute(Some("<PLAYER_SETUP>")), arg_types: [None, None, None, None] }
    } else {
        TokenType { name: "circle_placement", context: TokenContext::TopLevelAttribute(Some("<PLAYER_SETUP>")), arg_types: [None, None, None, None] }
    }
}

/// The `i`th known token, for `24 <= i <= 31`.
#[verifier::spinoff_prover]
fn token_in_3(i: usize) -> (r: TokenType)
    requires
        24 <= i <= 31,
    ensures
        r.info() == spec_token_info(i as int),
        context_view(r.spec_context()) == spec_token_context(i as int),
{
    if i == 24 {
        TokenType { name: "circle_radius", context: TokenContext::TopLevelAttribute(Some("<PLAYER_SETUP>")), arg_types: [Some(ArgType::Number), None, None, None] }
    } else if i == 25 {
        TokenType { name: "nomad_resources", context: TokenContext::TopLevelAttribute(Some("<PLAYER_SETUP>")), arg_types: [None, None, None, None] }
    } else if i == 26 {
        TokenType { name: "grouped_by_team", context: TokenContext::TopLevelAttribute(Some("<PLAYER_SETUP>")), arg_types: [None, None, None, None] }
    } else if i == 27 {
        TokenType { name: "effect_amount", context: TokenContext::Command(Some("<PLAYER_SETUP>")), arg_types: [Some(ArgType::Token), Some(ArgType::Token), Some(ArgType::Token), Some(ArgType::Number)] }
    } else if i == 28 {
        TokenType { name: "effect_percent", context: TokenContext::Command(Some("<PLAYER_SETUP>")), arg_types: [Some(ArgType::Token), Some(ArgType::Token), Some(ArgType::Token), Some(ArgType::Number)] }
    } else if i == 29 {
        TokenType { name: "terrain_state", context: TokenContext::TopLevelAttribute(Some("<PLAYER_SETUP>")), arg_types: [Some(ArgType::Number), Some(ArgType::Number), Some(ArgType::Number), Some(ArgType::Number)] }
    } else if i == 30 {
        TokenType { name: "weather_type", context: TokenContext::TopLevelAttribute(Some("<PLAYER_SETUP>")), arg_types: [Some(ArgType::Number), Some(ArgType::Number), Some(ArgType::Number), Some(ArgType::Number)] }
    } else {
        TokenType { name: "guard_state", context: TokenContext::TopLevelAttribute(Some("<PLAYER_SETUP>")), arg_types: [Some(ArgType::Token), Some(ArgType::Token), Some(ArgType::Number), Some(ArgType::Number)] }
    }
}

/// The `i`th known token, for `32 <= i <= 39`.
#[verifier::spinoff_prover]
fn token_in_4(i: usize) -> (r: TokenType)
    requires
        32 <= i <= 39,
    ensures
        r.info() == spec_token_info(i as int),
        context_view(r.spec_context()) == spec_token_context(i as int),
{
    if i == 32 {
        TokenType { name: "enable_waves", context: TokenContext::TopLevelAttribute(Some("<PLAYER_SETUP>")), arg_types: [Some(ArgType::Number), None, None, None] }
    } else if i == 33 {
        TokenType { name: "terrain_mask", context: TokenContext::TopLevelAttribute(Some("<PLAYER_SETUP>")), arg_types: [Some(ArgType::Number), None, None, None] }
    } else if i == 34 {
        TokenType { name: "create_land", context: TokenContext::Command(Some("<LAND_GENERATION>")), arg_types: [None, None, None, None] }
    } else if i == 35 {
        TokenType { name: "create_player_lands", context: TokenContext::Command(Some("<LAND_GENERATION>")), arg_types: [None, None, None, None] }
    } else if i == 36 {
        TokenType { name: "land_percent", context: places_0(), arg_types: [Some(ArgType::Number), None, None, None] }
    } else if i == 37 {
        TokenType { name: "land_position", context: places_0(), arg_types: [Some(ArgType::Number), Some(ArgType::Number), None, None] }
    } else if i == 38 {
        TokenType { name: "land_id", context: places_0(), arg_types: [Some(ArgType::Number), None, None, None] }
    } else {
        TokenType { name: "terrain_type", context: places_1(), arg_types: [Some(ArgType::Token), None, None, None] }
    }
}

/// The `i`th known token, for `40 <= i <= 47`.
#[verifier::spinoff_prover]
fn token_in_5(i: usize) -> (r: TokenType)
    requires
        40 <= i <= 47,
    ensures
        r.info() == spec_token_info(i as int),
        context_view(r.spec_context()) == spec_token_context(i as int),
{
    if i == 40 {
        TokenType { name: "base_size", context: places_0(), arg_types: [Some(ArgType::Number), None, None, None] }
    } else if i == 41 {
        TokenType { name: "base_elevation", context: places_0(), arg_types: [Some(ArgType::Number), None, None, None] }
    } else if i == 42 {
        TokenType { name: "left_border", context: places_0(), arg_types: [Some(ArgType::Number), None, None, None] }
    } else if i == 43 {
        TokenType { name: "right_border", context: places_0(), arg_types: [Some(ArgType::Number), None, None, None] }
    } else if i == 44 {
        TokenType { name: "top_border", context: places_0(), arg_types: [Some(ArgType::Number), None, None, None] }
    } else if i == 45 {
        TokenType { name: "bottom_border", context: places_0(), arg_types: [Some(ArgType::Number), None, None, None] }
    } else if i == 46 {
        TokenType { name: "border_fuzziness", context: places_0(), arg_types: [Some(ArgType::Number), None, None, None] }
    } else {
        TokenType { name: "zone", context: places_0(), arg_types: [Some(ArgType::Number), None, None, None] }
    }
}

/// The `i`th known token, for `48 <= i <= 55`.
#[verifier::spinoff_prover]
fn token_in_6(i: usize) -> (r: TokenType)
    requires
        48 <= i <= 55,
    ensures
        r.info() == spec_token_info(i as int),
        context_view(r.spec_context()) == spec_token_context(i as int),
{
    if i == 48 {
        TokenType { name: "set_zone_by_team", context: places_0(), arg_types: [None, None, None, None] }
    } else if i == 49 {
        TokenType { name: "set_zone_randomly", context: places_0(), arg_types: [None, None, None, None] }
    } else if i == 50 {
        TokenType { name: "other_zone_avoidance_distance", context: places_0(), arg_types: [Some(ArgType::Number), None, None, None] }
    } else if i == 51 {
        TokenType { name: "assign_to_player", context: TokenContext::Attribute(Some("create_land")), arg_types: [Some(ArgType::Number), None, None, None] }
    } else if i == 52 {
        TokenType { name: "assign_to", context: TokenContext::Attribute(Some("create_land")), arg_types: [Some(ArgType::Token), Some(ArgType::Number), Some(ArgType::Number), Some(ArgType::Number)] }
    } else if i == 53 {
        TokenType { name: "base_terrain", context: places_2(), arg_types: [Some(ArgType::Token), None, None, None] }
    } else if i == 54 {
        TokenType { name: "min_number_of_cliffs", context: TokenContext::TopLevelAttribute(Some("<CLIFF_GENERATION>")), arg_types: [Some(ArgType::Number), None, None, None] }
    } else {
        TokenType { name: "max_number_of_cliffs", context: TokenContext::TopLevelAttribute(Some("<CLIFF_GENERATION>")), arg_types: [Some(ArgType::Number), None, None, None] }
    }
}

/// The `i`th known token, for `56 <= i <= 63`.
#[verifier::spinoff_prover]
fn token_in_7(i: usize) -> (r: TokenType)
    requires
        56 <= i <= 63,
    ensures
        r.info() == spec_token_info(i as int),
        context_view(r.spec_context()) == spec_token_context(i as int),
{
    if i == 56 {
        TokenType { name: "min_length_of_cliff", context: TokenContext::TopLevelAttribute(Some("<CLIFF_GENERATION>")), arg_types: [Some(ArgType::Number), None, None, None] }
    } else if i == 57 {
        TokenType { name: "max_length_of_cliff", context: TokenContext::TopLevelAttribute(Some("<CLIFF_GENERATION>")), arg_types: [Some(ArgType::Number), None, None, None] }
    } else if i == 58 {
        TokenType { name: "cliff_curliness", context: TokenContext::TopLevelAttribute(Some("<CLIFF_GENERATION>")), arg_types: [Some(ArgType::Number), None, None, None] }
    } else if i == 59 {
        TokenType { name: "min_distance_cliffs", context: TokenContext::TopLevelAttribute(Some("<CLIFF_GENERATION>")), arg_types: [Some(ArgType::Number), None, None, None] }
    } else if i == 60 {
        TokenType { name: "min_terrain_distance", context: TokenContext::TopLevelAttribute(Some("<CLIFF_GENERATION>")), arg_types: [Some(ArgType::Number), None, None, None] }
    } else if i == 61 {
        TokenType { name: "create_terrain", context: TokenContext::Command(Some("<TERRAIN_GENERATION>")), arg_types: [Some(ArgType::Token), None, None, None] }
    } else if i == 62 {
        TokenType { name: "percent_of_land", context: TokenContext::Attribute(Some("create_terrain")), arg_types: [Some(ArgType::Number), None, None, None] }
    } else {
        TokenType { name: "number_of_tiles", context: places_3(), arg_types: [Some(ArgType::Number), None, None, None] }
    }
}

/// The `i`th known token, for `64 <= i <= 71`.
#[verifier::spinoff_prover]
fn token_in_8(i: usize) -> (r: TokenType)
    requires
        64 <= i <= 71,
    ensures
        r.info() == spec_token_info(i as int),
        context_view(r.spec_context()) == spec_token_context(i as int),
{
    if i == 64 {
        TokenType { name: "number_of_clumps", context: places_3(), arg_types: [Some(ArgType::Number), None, None, None] }
    } else if i == 65 {
        TokenType { name: "set_scale_by_groups", context: places_3(), arg_types: [None, None, None, None] }
    } else if i == 66 {
        TokenType { name: "set_scale_by_size", context: places_3(), arg_types: [None, None, None, None] }
    } else if i == 67 {
        TokenType { name: "spacing_to_other_terrain_types", context: TokenContext::Attribute(Some("create_terrain")), arg_types: [Some(ArgType::Number), None, None, None] }
    } else if i == 68 {
        TokenType { name: "height_limits", context: TokenContext::Attribute(Some("create_terrain")), arg_types: [Some(ArgType::Number), Some(ArgType::Number), None, None] }
    } else if i == 69 {
        TokenType { name: "set_flat_terrain_only", context: TokenContext::Attribute(Some("create_terrain")), arg_types: [None, None, None, None] }
    } else if i == 70 {
        TokenType { name: "set_avoid_player_start_areas", context: TokenContext::Attribute(Some("create_terrain")), arg_types: [None, None, None, None] }
    } else {
        TokenType { name: "clumping_factor", context: TokenContext::Attribute(Some("create_terrain")), arg_types: [Some(ArgType::Number), None, None, None] }
    }
}

/// The `i`th known token, for `72 <= i <= 79`.
#[verifier::spinoff_prover]
fn token_in_9(i: usize) -> (r: TokenType)
    requires
        72 <= i <= 79,
    ensures
        r.info() == spec_token_info(i as int),
        context_view(r.spec_context()) == spec_token_context(i as int),
{
    if i == 72 {
        TokenType { name: "base_layer", context: TokenContext::Attribute(Some("create_terrain")), arg_types: [Some(ArgType::Token), None, None, None] }
    } else if i == 73 {
        TokenType { name: "create_object", context: TokenContext::Command(Some("<OBJECTS_GENERATION>")), arg_types: [Some(ArgType::Token), None, None, None] }
    } else if i == 74 {
        TokenType { name: "set_scaling_to_map_size", context: TokenContext::Attribute(Some("create_object")), arg_types: [None, None, None, None] }
    } else if i == 75 {
        TokenType { name: "set_scaling_to_player_number", context: TokenContext::Attribute(Some("create_object")), arg_types: [None, None, None, None] }
    } else if i == 76 {
        TokenType { name: "number_of_groups", context: TokenContext::Attribute(Some("create_object")), arg_types: [Some(ArgType::Number), None, None, None] }
    } else if i == 77 {
        TokenType { name: "number_of_objects", context: TokenContext::Attribute(Some("create_object")), arg_types: [Some(ArgType::Number), None, None, None] }
    } else if i == 78 {
        TokenType { name: "group_variance", context: TokenContext::Attribute(Some("create_object")), arg_types: [Some(ArgType::Number), None, None, None] }
    } else {
        TokenType { name: "group_placement_radius", context: TokenContext::Attribute(Some("create_object")), arg_types: [Some(ArgType::Number), None, None, None] }
    }
}

/// The `i`th known token, for `80 <= i <= 87`.
#[verifier::spinoff_prover]
fn token_in_10(i: usize) -> (r: TokenType)
    requires
        80 <= i <= 87,
    ensures
        r.info() == spec_token_info(i as int),
        context_view(r.spec_context()) == spec_token_context(i as int),
{
    if i == 80 {
        TokenType { name: "set_loose_grouping", context: TokenContext::Attribute(Some("create_object")), arg_types: [None, None, None, None] }
    } else if i == 81 {
        TokenType { name: "set_tight_grouping", context: TokenContext::Attribute(Some("create_object")), arg_types: [None, None, None, None] }
    } else if i == 82 {
        TokenType { name: "terrain_to_place_on", context: TokenContext::Attribute(Some("create_object")), arg_types: [Some(ArgType::Token), None, None, None] }
    } else if i == 83 {
        TokenType { name: "layer_to_place_on", context: TokenContext::Attribute(Some("create_object")), arg_types: [Some(ArgType::Token), None, None, None] }
    } else if i == 84 {
        TokenType { name: "set_gaia_object_only", context: TokenContext::Attribute(Some("create_object")), arg_types: [None, None, None, None] }
    } else if i == 85 {
        TokenType { name: "set_place_for_every_player", context: TokenContext::Attribute(Some("create_object")), arg_types: [None, None, None, None] }
    } else if i == 86 {
        TokenType { name: "place_on_specific_land_id", context: TokenContext::Attribute(Some("create_object")), arg_types: [Some(ArgType::Number), None, None, None] }
    } else {
        TokenType { name: "min_distance_to_players", context: TokenContext::Attribute(Some("create_object")), arg_types: [Some(ArgType::Number), None, None, None] }
    }
}

/// The `i`th known token, for `88 <= i <= 95`.
#[verifier::spinoff_prover]
fn token_in_11(i: usize) -> (r: TokenType)
    requires
        88 <= i <= 95,
    ensures
        r.info() == spec_token_info(i as int),
        context_view(r.spec_context()) == spec_token_context(i as int),
{
    if i == 88 {
        TokenType { name: "max_distance_to_players", context: TokenContext::Attribute(Some("create_object")), arg_types: [Some(ArgType::Number), None, None, None] }
    } else if i == 89 {
        TokenType { name: "max_distance_to_other_zones", context: TokenContext::Attribute(Some("create_object")), arg_types: [Some(ArgType::Number), None, None, None] }
    } else if i == 90 {
        TokenType { name: "min_distance_group_placement", context: TokenContext::Attribute(Some("create_object")), arg_types: [Some(ArgType::Number), None, None, None] }
    } else if i == 91 {
        TokenType { name: "temp_min_distance_group_placement", context: TokenContext::Attribute(Some("create_object")), arg_types: [Some(ArgType::Number), None, None, None] }
    } else if i == 92 {
        TokenType { name: "resource_delta", context: TokenContext::Attribute(Some("create_object")), arg_types: [Some(ArgType::Number), None, None, None] }
    } else if i == 93 {
        TokenType { name: "avoid_forest_zone", context: TokenContext::Attribute(Some("create_object")), arg_types: [Some(ArgType::Number), None, None, None] }
    } else if i == 94 {
        TokenType { name: "place_on_forest_zone", context: TokenContext::Attribute(Some("create_object")), arg_types: [None, None, None, None] }
    } else {
        TokenType { name: "avoid_cliff_zone", context: TokenContext::Attribute(Some("create_object")), arg_types: [Some(ArgType::Number), None, None, None] }
    }
}

/// The `i`th known token, for `96 <= i <= 103`.
#[verifier::spinoff_prover]
fn token_in_12(i: usize) -> (r: TokenType)
    requires
        96 <= i <= 103,
    ensures
        r.info() == spec_token_info(i as int),
        context_view(r.spec_context()) == spec_token_context(i as int),
{
    if i == 96 {
        TokenType { name: "actor_area", context: TokenContext::Attribute(Some("create_object")), arg_types: [Some(ArgType::Number), None, None, None] }
    } else if i == 97 {
        TokenType { name: "actor_area_radius", context: TokenContext::Attribute(Some("create_object")), arg_types: [Some(ArgType::Number), None, None, None] }
    } else if i == 98 {
        TokenType { name: "actor_area_to_place_in", context: TokenContext::Attribute(Some("create_object")), arg_types: [Some(ArgType::Number), None, None, None] }
    } else if i == 99 {
        TokenType { name: "avoid_actor_area", context: TokenContext::Attribute(Some("create_object")), arg_types: [Some(ArgType::Number), None, None, None] }
    } else if i == 100 {
        TokenType { name: "avoid_all_actor_areas", context: TokenContext::Attribute(Some("create_object")), arg_types: [None, None, None, None] }
    } else if i == 101 {
        TokenType { name: "force_placement", context: TokenContext::Attribute(Some("create_object")), arg_types: [None, None, None, None] }
    } else if i == 102 {
        TokenType { name: "find_closest", context: TokenContext::Attribute(Some("create_object")), arg_types: [None, None, None, None] }
    } else {
        TokenType { name: "second_object", context: TokenContext::Attribute(Some("create_object")), arg_types: [Some(ArgType::Token), None, None, None] }
    }
}

/// The `i`th known token, for `104 <= i <= 111`.
#[verifier::spinoff_prover]
fn token_in_13(i: usize) -> (r: TokenType)
    requires
        104 <= i <= 111,
    ensures
        r.info() == spec_token_info(i as int),
        context_view(r.spec_context()) == spec_token_context(i as int),
{
    if i == 104 {
        TokenType { name: "create_connect_all_players_land", context: TokenContext::Command(Some("<CONNECTION_GENERATION>")), arg_types: [None, None, None, None] }
    } else if i == 105 {
        TokenType { name: "create_connect_teams_lands", context: TokenContext::Command(Some("<CONNECTION_GENERATION>")), arg_types: [None, None, None, None] }
    } else if i == 106 {
        TokenType { name: "create_connect_same_land_zones", context: TokenContext::Command(Some("<CONNECTION_GENERATION>")), arg_types: [None, None, None, None] }
    } else if i == 107 {
        TokenType { name: "create_connect_all_lands", context: TokenContext::Command(Some("<CONNECTION_GENERATION>")), arg_types: [None, None, None, None] }
    } else if i == 108 {
        TokenType { name: "create_connect_to_nonplayer_land", context: TokenContext::Command(Some("<CONNECTION_GENERATION>")), arg_types: [None, None, None, None] }
    } else if i == 109 {
        TokenType { name: "replace_terrain", context: places_4(), arg_types: [Some(ArgType::Token), Some(ArgType::Token), None, None] }
    } else if i == 110 {
        TokenType { name: "terrain_cost", context: places_4(), arg_types: [Some(ArgType::Token), Some(ArgType::Number), None, None] }
    } else {
        TokenType { name: "terrain_size", context: places_4(), arg_types: [Some(ArgType::Token), Some(ArgType::Number), Some(ArgType::Number), None] }
    }
}

/// The `i`th known token, for `112 <= i <= 115`.
#[verifier::spinoff_prover]
fn token_in_14(i: usize) -> (r: TokenType)
    requires
        112 <= i <= 115,
    ensures
        r.info() == spec_token_info(i as int),
        context_view(r.spec_context()) == spec_token_context(i as int),
{
    if i == 112 {
        TokenType { name: "default_terrain_replacement", context: places_4(), arg_types: [Some(ArgType::Token), None, None, None] }
    } else if i == 113 {
        TokenType { name: "create_elevation", context: TokenContext::Command(Some("<ELEVATION_GENERATION>")), arg_types: [Some(ArgType::Number), None, None, None] }
    } else if i == 114 {
        TokenType { name: "spacing", context: TokenContext::Attribute(Some("create_elevation")), arg_types: [Some(ArgType::Number), None, None, None] }
    } else {
        TokenType { name: "enable_balanced_elevation", context: TokenContext::Attribute(Some("enable_balanced_elevation")), arg_types: [None, None, None, None] }
    }
}

/// The `i`th known token.
pub fn token_at(i: usize) -> (r: TokenType)
    requires
        i < TOKEN_COUNT,
    ensures
        r.info() == spec_token_info(i as int),
        context_view(r.spec_context()) == spec_token_context(i as int),
{
    if i <= 7 {
        token_in_0(i)
    } else if i <= 15 {
        token_in_1(i)
    } else if i <= 23 {
        token_in_2(i)
    } else if i <= 31 {
        token_in_3(i)
    } else if i <= 39 {
        token_in_4(i)
    } else if i <= 47 {
        token_in_5(i)
    } else if i <= 55 {
        token_in_6(i)
    } else if i <= 63 {
        token_in_7(i)
    } else if i <= 71 {
        token_in_8(i)
    } else if i <= 79 {
        token_in_9(i)
    } else if i <= 87 {
        token_in_10(i)
    } else if i <= 95 {
        token_in_11(i)
    } else if i <= 103 {
        token_in_12(i)
    } else if i <= 111 {
        token_in_13(i)
    } else {
        token_in_14(i)
    }
}

} // verus!
