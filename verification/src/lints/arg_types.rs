//! Checks the arguments of commands: numbers where numbers belong, names of constants that
//! exist, and the ranges that some commands accept.

use crate::casing::{any_lowercase, has_lowercase, string_from_chars, to_uppercase, uppercase_text};
use crate::diagnostic::{
    diagnostic_view, fix_replace_view, suggest_view, Diagnostic, DiagnosticView, Fix, Severity,
};
use crate::lints::{
    add_guess, command_known, concat3, concat4, lemma_names_chars, names_chars, with_guess,
};
use crate::parser::{text, Atom, AtomKind};
use crate::state::ParseState;
use crate::text::{ascii_lowercase, is_ws_char, lower_bytes, parse_i32, spec_parse_i32, str_chars, str_eq, ws_char};
use crate::tokens::{lookup_token, spec_arg_len, spec_lookup, ArgType};
use crate::wordize::Word;
use vstd::prelude::*;
use vstd::utf8::*;
use vstd::string::*;

verus! {

/// Does `str::parse::<i32>` accept the text?
pub open spec fn parses(s: Seq<u8>) -> bool {
    spec_parse_i32(s) is Some
}

/// The first comma at or after `i`.
pub open spec fn find_comma(s: Seq<u8>, i: int) -> Option<int>
    decreases s.len() - i,
{
    if i < 0 || i >= s.len() {
        None
    } else if s[i] == 0x2c {
        Some(i)
    } else {
        find_comma(s, i + 1)
    }
}

/// Where the first comma at or after `i` stands, if there is one.
pub proof fn lemma_find_comma(s: Seq<u8>, i: int)
    requires
        0 <= i,
    ensures
        match find_comma(s, i) {
            Some(k) => i <= k < s.len() && s[k] == 0x2c && forall|j: int|
                i <= j < k ==> s[j] != 0x2c,
            None => forall|j: int| i <= j < s.len() ==> s[j] != 0x2c,
        },
    decreases s.len() - i,
{
    if i < s.len() && s[i] != 0x2c {
        lemma_find_comma(s, i + 1);
    }
}

/// Every piece of the text between commas parses as an `i32`, as
/// `s.split(',').all(|p| p.parse::<i32>().is_ok())` checks.
pub open spec fn pieces_ok(s: Seq<u8>) -> bool
    decreases s.len(),
{
    match find_comma(s, 0) {
        Some(k) => {
            proof {
                lemma_find_comma(s, 0);
            }
            parses(s.take(k)) && pieces_ok(s.skip(k + 1))
        },
        None => parses(s),
    }
}

/// The text is a call such as `rnd(1,10)`: `rnd(`, then numbers between commas, then `)`.
pub open spec fn rnd_shape(b: Seq<u8>) -> bool {
    &&& b.len() >= 5
    &&& b.take(4) == seq![0x72u8, 0x6eu8, 0x64u8, 0x28u8]
    &&& b.last() == 0x29
    &&& pieces_ok(b.subrange(4, b.len() - 1))
}

/// The text without its white space.
pub open spec fn strip_ws(s: Seq<char>) -> Seq<char> {
    s.filter(|c: char| !is_ws_char(c))
}

/// Does the text hold white space?
pub open spec fn has_ws(s: Seq<char>) -> bool {
    exists|i: int| 0 <= i < s.len() && is_ws_char(#[trigger] s[i])
}

/// Whether the text is a valid `rnd(a,b)` call, and, where it is not but becomes one once its
/// white space is taken out, that text as a replacement.
pub open spec fn valid_rnd(s: Seq<char>) -> (bool, Option<Seq<char>>) {
    if rnd_shape(encode_utf8(s)) {
        (true, None)
    } else if has_ws(s) && rnd_shape(encode_utf8(strip_ws(s))) {
        (false, Some(strip_ws(s)))
    } else {
        (false, None)
    }
}

/// Check if a string is numeric.
pub fn is_numeric(s: &str) -> (r: bool)
    ensures
        r == parses(s.spec_bytes()),
{
    parse_i32(s.as_bytes()).is_some()
}

/// Do all pieces between commas of `b[lo..hi]` parse?
fn pieces_numeric(b: &[u8], lo: usize, hi: usize) -> (r: bool)
    requires
        lo <= hi <= b@.len(),
    ensures
        r == pieces_ok(b@.subrange(lo as int, hi as int)),
    decreases hi - lo,
{
    let ghost s = b@.subrange(lo as int, hi as int);
    let mut j: usize = lo;
    while j < hi && b[j] != 0x2c
        invariant
            lo <= j <= hi,
            hi <= b@.len(),
            forall|k: int| lo <= k < j ==> b@[k] != 0x2c,
        decreases hi - j,
    {
        j = j + 1;
    }
    proof {
        lemma_find_comma(s, 0);
        if j < hi {
            assert(s[j - lo] == 0x2c);
        }
    }
    let piece_ok = parse_i32(vstd::slice::slice_subrange(b, lo, j)).is_some();
    if j == hi {
        assert(find_comma(s, 0) is None);
        assert(s.take((j - lo) as int) =~= s);
        piece_ok
    } else {
        assert(find_comma(s, 0) == Some((j - lo) as int));
        assert(s.take((j - lo) as int) =~= b@.subrange(lo as int, j as int));
        assert(s.skip((j - lo) + 1) =~= b@.subrange(j + 1, hi as int));
        piece_ok && pieces_numeric(b, j + 1, hi)
    }
}

/// Is the text an `rnd(..)` call?
fn rnd_call(b: &[u8]) -> (r: bool)
    ensures
        r == rnd_shape(b@),
{
    if b.len() < 5 {
        return false;
    }
    if !(b[0] == 0x72 && b[1] == 0x6e && b[2] == 0x64 && b[3] == 0x28) {
        assert(b@.take(4)[0] == b@[0] && b@.take(4)[1] == b@[1] && b@.take(4)[2] == b@[2]
            && b@.take(4)[3] == b@[3]);
        return false;
    }
    assert(b@.take(4) =~= seq![0x72u8, 0x6eu8, 0x64u8, 0x28u8]);
    if b[b.len() - 1] != 0x29 {
        return false;
    }
    pieces_numeric(b, 4, b.len() - 1)
}

/// The characters without their white space.
fn strip_ws_chars(v: &[char]) -> (r: Vec<char>)
    ensures
        r@ == strip_ws(v@),
{
    let mut r: Vec<char> = Vec::new();
    let mut i: usize = 0;
    while i < v.len()
        invariant
            i <= v@.len(),
            r@ == strip_ws(v@.take(i as int)),
        decreases v@.len() - i,
    {
        let c = v[i];
        proof {
            reveal(Seq::filter);
            assert(v@.take(i + 1).drop_last() =~= v@.take(i as int));
        }
        if !ws_char(c) {
            r.push(c);
        }
        i = i + 1;
    }
    assert(v@.take(v@.len() as int) =~= v@);
    r
}

/// Check if a string contains a valid rnd(1,10) call.
///
/// Returns a tuple with values:
///
///   0. whether the string was valid
///   1. an optional valid replacement value
pub fn is_valid_rnd(s: &str) -> (r: (bool, Option<String>))
    ensures
        r.0 == valid_rnd(s@).0,
        match r.1 {
            Some(t) => valid_rnd(s@).1 == Some(t@),
            None => valid_rnd(s@).1 is None,
        },
{
    if rnd_call(s.as_bytes()) {
        return (true, None);
    }
    let chars = str_chars(s);
    let mut any_ws = false;
    let mut i: usize = 0;
    while i < chars.len()
        invariant
            chars@ == s@,
            i <= chars@.len(),
            any_ws == exists|j: int| 0 <= j < i && is_ws_char(#[trigger] chars@[j]),
        decreases chars@.len() - i,
    {
        if ws_char(chars[i]) {
            any_ws = true;
        }
        i = i + 1;
    }
    if any_ws {
        let stripped = strip_ws_chars(chars.as_slice());
        let no_ws = string_from_chars(stripped.as_slice());
        if rnd_call(no_ws.as_str().as_bytes()) {
            return (false, Some(no_ws));
        }
    }
    (false, None)
}


/// Checks the arguments of commands.
pub struct ArgTypesLint {}

/// The view of an optional diagnostic.
pub open spec fn opt_view(d: Option<Diagnostic>) -> Option<DiagnosticView> {
    match d {
        Some(x) => Some(x@),
        None => None,
    }
}

/// The diagnostic, if any, as a sequence.
pub open spec fn opt_seq(d: Option<DiagnosticView>) -> Seq<DiagnosticView> {
    match d {
        Some(x) => seq![x],
        None => Seq::empty(),
    }
}

/// A warning at the word's location.
pub open spec fn warning_at(w: Word, message: Seq<char>) -> DiagnosticView {
    diagnostic_view(Severity::Warning, w.location, message)
}

/// An argument that should be a constant's name but is a number.
pub open spec fn unexpected_number_view(arg: Word) -> Option<DiagnosticView> {
    if parses(text(arg)) {
        Some(
            diagnostic_view(
                Severity::Error,
                arg.location,
                "Expected a const name, but got a number "@ + arg.value@,
            ),
        )
    } else {
        None
    }
}

/// A condition's name that no `#define` may have defined.
pub open spec fn ever_defined_view(state: ParseState, token: Word) -> Option<DiagnosticView> {
    if !state.spec_may_have_define(text(token)) {
        Some(
            with_guess(
                warning_at(
                    token,
                    "Token `"@ + token.value@ + "` is never defined, this condition will always fail"@,
                ),
                token.location,
                token.value@,
                names_chars(state.spec_define_names()),
            ),
        )
    } else {
        None
    }
}

/// A name that should have a value but is no `#const`.
pub open spec fn defined_with_value_view(state: ParseState, token: Word) -> Option<
    DiagnosticView,
> {
    if !state.spec_has_const(text(token)) {
        if state.spec_has_define(text(token)) {
            Some(
                warning_at(
                    token,
                    "Expected a valued token (defined using #const), got a valueless token `"@
                        + token.value@ + "` (defined using #define)"@,
                ),
            )
        } else {
            Some(
                with_guess(
                    warning_at(token, "Token `"@ + token.value@ + "` is never defined"@),
                    token.location,
                    token.value@,
                    names_chars(state.spec_const_names()),
                ),
            )
        }
    } else {
        None
    }
}

/// An argument that should be a number: neither an `i32` nor an `rnd(..)` call.
pub open spec fn number_view(name: Word, arg: Word) -> Option<DiagnosticView> {
    if parses(text(arg)) || valid_rnd(arg.value@).0 {
        None
    } else {
        let err = diagnostic_view(
            Severity::Error,
            arg.location,
            "Expected a number argument to "@ + name.value@ + ", but got "@ + arg.value@,
        );
        if arg.value@.len() > 0 && arg.value@[0] == '(' {
            let with_rnd = "rnd"@ + arg.value@;
            Some(
                suggest_view(
                    err,
                    fix_replace_view(
                        arg.location,
                        "Did you forget the `rnd`?"@,
                        match valid_rnd(with_rnd).1 {
                            Some(t) => t,
                            None => with_rnd,
                        },
                    ),
                ),
            )
        } else {
            Some(err)
        }
    }
}

/// An argument that should be a word: no number, and no lower-case letters.
pub open spec fn word_view(arg: Word) -> Option<DiagnosticView> {
    match unexpected_number_view(arg) {
        Some(d) => Some(d),
        None => if has_lowercase(arg.value@) {
            Some(
                suggest_view(
                    warning_at(
                        arg,
                        "Using lowercase for constant names may cause confusion with attribute or command names"@,
                    ),
                    fix_replace_view(
                        arg.location,
                        "Use uppercase for constants"@,
                        uppercase_text(arg.value@),
                    ),
                ),
            )
        } else {
            None
        },
    }
}

/// What is wrong with one argument of a command, of the given type, if anything.
pub open spec fn check_arg_view(
    state: ParseState,
    atom: Atom,
    name: Word,
    arg_type: ArgType,
    arg: Option<Word>,
) -> Option<DiagnosticView> {
    match arg {
        None => Some(
            diagnostic_view(Severity::Error, atom.location, "Missing arguments to "@ + name.value@),
        ),
        Some(a) => match arg_type {
            ArgType::Number => number_view(name, a),
            ArgType::Word => word_view(a),
            ArgType::OptionalToken => match unexpected_number_view(a) {
                Some(d) => Some(d),
                None => ever_defined_view(state, a),
            },
            ArgType::Token => match unexpected_number_view(a) {
                Some(d) => Some(d),
                None => defined_with_value_view(state, a),
            },
            ArgType::Filename => None,
        },
    }
}

/// The checks of the first `n` arguments that the command takes.
pub open spec fn arg_checks(
    state: ParseState,
    atom: Atom,
    name: Word,
    types: Seq<Option<ArgType>>,
    args: Seq<Word>,
    n: int,
) -> Seq<DiagnosticView>
    decreases n,
{
    if n <= 0 {
        Seq::empty()
    } else {
        arg_checks(state, atom, name, types, args, n - 1) + match types[n - 1] {
            Some(t) => opt_seq(
                check_arg_view(
                    state,
                    atom,
                    name,
                    t,
                    if n - 1 < args.len() {
                        Some(args[n - 1])
                    } else {
                        None
                    },
                ),
            ),
            None => Seq::empty(),
        }
    }
}

/// What `assign_to` assigns to.
#[derive(Clone, Copy, PartialEq, Eq, Structural)]
pub enum AssignTarget {
    Color,
    Player,
    Team,
}

/// The target named by the first argument of `assign_to`.
pub open spec fn assign_target(args: Seq<Word>) -> Option<AssignTarget> {
    if args.len() == 0 {
        None
    } else if args[0].value@ == "AT_COLOR"@ {
        Some(AssignTarget::Color)
    } else if args[0].value@ == "AT_PLAYER"@ {
        Some(AssignTarget::Player)
    } else if args[0].value@ == "AT_TEAM"@ {
        Some(AssignTarget::Team)
    } else {
        None
    }
}

/// The `i`th argument, as an `i32`, if there is one and it is a number.
pub open spec fn number_arg(args: Seq<Word>, i: int) -> Option<i32> {
    if i < args.len() {
        spec_parse_i32(text(args[i]))
    } else {
        None
    }
}

/// What is wrong with the arguments of an `assign_to` attribute.
pub open spec fn assign_to_view(args: Seq<Word>) -> Seq<DiagnosticView> {
    let target = assign_target(args);
    let target_warnings = if args.len() > 0 && target is None {
        seq![warning_at(args[0], "`assign_to` Target must be AT_COLOR, AT_PLAYER, AT_TEAM"@)]
    } else {
        Seq::empty()
    };
    let number_warnings = match number_arg(args, 1) {
        Some(n) => match target {
            Some(AssignTarget::Team) => if (n < -4 || n > 4) && n != -10 {
                seq![warning_at(args[1], "`assign_to` Number must be 1-4 when targeting AT_TEAM"@)]
            } else {
                Seq::empty()
            },
            Some(_) => if n < 0 || n > 8 {
                seq![
                    warning_at(
                        args[1],
                        "`assign_to` Number must be 1-8 when targeting AT_COLOR or AT_PLAYER"@,
                    ),
                ]
            } else {
                Seq::empty()
            },
            None => Seq::empty(),
        },
        None => Seq::empty(),
    };
    let mode_warnings = match number_arg(args, 2) {
        Some(m) => match target {
            Some(AssignTarget::Team) => if m != -1 && m != 0 {
                seq![
                    warning_at(
                        args[2],
                        "`assign_to` Mode must be 0 (random selection) or -1 (ordered selection) when targeting AT_TEAM"@,
                    ),
                ]
            } else {
                Seq::empty()
            },
            Some(_) => if m != 0 {
                seq![
                    warning_at(
                        args[2],
                        "`assign_to` Mode should be 0 when targeting AT_COLOR or AT_PLAYER"@,
                    ),
                ]
            } else {
                Seq::empty()
            },
            None => Seq::empty(),
        },
        None => Seq::empty(),
    };
    let flag_warnings = match number_arg(args, 3) {
        Some(f) => if !(0 <= f && f <= 3) {
            seq![warning_at(args[3], "`assign_to` Flags must only combine flags 1 and 2"@)]
        } else {
            Seq::empty()
        },
        None => Seq::empty(),
    };
    target_warnings + number_warnings + mode_warnings + flag_warnings
}

/// The checks that belong to particular commands.
pub open spec fn command_checks(name: Word, args: Seq<Word>) -> Seq<DiagnosticView> {
    let n = name.value@;
    if n == "base_elevation"@ && args.len() > 0 {
        match number_arg(args, 0) {
            Some(v) => if v < 0 || v > 7 {
                seq![warning_at(args[0], "Elevation value out of range (0 or 1-7)"@)]
            } else {
                Seq::empty()
            },
            None => Seq::empty(),
        }
    } else if n == "land_position"@ {
        (match number_arg(args, 0) {
            Some(v) => if v < 0 || v > 100 {
                seq![warning_at(args[0], "Land position out of range (0-100)"@)]
            } else {
                Seq::empty()
            },
            None => Seq::empty(),
        }) + (match number_arg(args, 1) {
            Some(v) => if v < 0 || v > 99 {
                seq![warning_at(args[1], "Land position out of range (0-99)"@)]
            } else {
                Seq::empty()
            },
            None => Seq::empty(),
        })
    } else if n == "zone"@ && args.len() > 0 {
        if args[0].value@ == "99"@ {
            seq![warning_at(args[0], "`zone 99` crashes the game"@)]
        } else {
            Seq::empty()
        }
    } else if n == "assign_to"@ {
        assign_to_view(args)
    } else {
        Seq::empty()
    }
}

/// What [`ArgTypesLint`] reports for an atom.
pub open spec fn arg_types_view(state: ParseState, atom: Atom) -> Seq<DiagnosticView> {
    match atom.kind {
        AtomKind::Command { name, arguments } => {
            let types = spec_lookup(lower_bytes(text(name))).unwrap().arg_types;
            arg_checks(state, atom, name, types, arguments@, spec_arg_len(types)) + command_checks(
                name,
                arguments@,
            )
        },
        _ => Seq::empty(),
    }
}


/// The views of a sequence of diagnostics.
pub open spec fn views(v: Seq<Diagnostic>) -> Seq<DiagnosticView> {
    v.map_values(|d: Diagnostic| d@)
}

/// Adds a diagnostic, if there is one.
fn push_opt(warnings: &mut Vec<Diagnostic>, d: Option<Diagnostic>)
    ensures
        views(final(warnings)@) == views(old(warnings)@) + opt_seq(opt_view(d)),
{
    let ghost before = warnings@;
    match d {
        Some(x) => {
            warnings.push(x);
            assert(views(warnings@) =~= views(before) + opt_seq(opt_view(Some(x))));
        },
        None => {
            assert(views(warnings@) =~= views(before) + opt_seq(opt_view(None::<Diagnostic>)));
        },
    }
}

/// Adds a warning at the word's location.
fn push_warning(warnings: &mut Vec<Diagnostic>, w: &Word, message: &str)
    ensures
        views(final(warnings)@) == views(old(warnings)@).push(warning_at(*w, message@)),
{
    let ghost before = warnings@;
    warnings.push(Diagnostic::warning(w.location, message));
    assert(views(warnings@) =~= views(before).push(warning_at(*w, message@)));
}

/// The `i`th argument, as an `i32`, if there is one and it is a number.
fn number_arg_at(args: &[Word], i: usize) -> (r: Option<i32>)
    ensures
        r == number_arg(args@, i as int),
{
    if i < args.len() {
        parse_i32(args[i].value.as_bytes())
    } else {
        None
    }
}

impl ArgTypesLint {
    /// The lint.
    pub fn new() -> (r: Self) {
        ArgTypesLint {}
    }

    /// The code of this lint's diagnostics.
    pub fn name(&self) -> (r: &'static str)
        ensures
            r@ == "arg-types"@,
    {
        "arg-types"
    }

    fn check_ever_defined(&self, state: &ParseState, token: &Word) -> (r: Option<Diagnostic>)
        ensures
            opt_view(r) == ever_defined_view(*state, *token),
    {
        if !state.may_have_define(token.value) {
            let msg = concat3(
                "Token `",
                token.value,
                "` is never defined, this condition will always fail",
            );
            let warn = Diagnostic::warning(token.location, msg.as_str());
            let defines = state.defines();
            proof {
                lemma_names_chars(defines@, state.spec_define_names());
            }
            Some(add_guess(warn, token.location, token.value, defines.as_slice()))
        } else {
            None
        }
    }

    /// Check if a constant was ever defined with a value (using #const)
    fn check_defined_with_value(&self, state: &ParseState, token: &Word) -> (r: Option<Diagnostic>)
        ensures
            opt_view(r) == defined_with_value_view(*state, *token),
    {
        if !state.has_const(token.value) {
            if state.has_define(token.value) {
                let msg = concat3(
                    "Expected a valued token (defined using #const), got a valueless token `",
                    token.value,
                    "` (defined using #define)",
                );
                Some(Diagnostic::warning(token.location, msg.as_str()))
            } else {
                let msg = concat3("Token `", token.value, "` is never defined");
                let warn = Diagnostic::warning(token.location, msg.as_str());
                let consts = state.consts();
                proof {
                    lemma_names_chars(consts@, state.spec_const_names());
                }
                Some(add_guess(warn, token.location, token.value, consts.as_slice()))
            }
        } else {
            None
        }
    }

    fn check_number(&self, name: &Word, arg: &Word) -> (r: Option<Diagnostic>)
        ensures
            opt_view(r) == number_view(*name, *arg),
    {
        // This may be a valued (#const) constant, or a number (12, -35), or rnd(\d+,\d+).
        if is_numeric(arg.value) {
            return None;
        }
        if is_valid_rnd(arg.value).0 {
            return None;
        }
        let msg = concat4("Expected a number argument to ", name.value, ", but got ", arg.value);
        let warn = Diagnostic::error(arg.location, msg.as_str());
        let chars = str_chars(arg.value);
        if chars.len() > 0 && chars[0] == '(' {
            let with_rnd = String::from_str("rnd").concat(arg.value);
            let (_, replacement) = is_valid_rnd(with_rnd.as_str());
            let rep = match replacement {
                Some(t) => t,
                None => with_rnd,
            };
            Some(warn.suggest(Fix::new(arg.location, "Did you forget the `rnd`?").replace(rep.as_str())))
        } else {
            Some(warn)
        }
    }

    fn unexpected_number_warning(arg: &Word) -> (r: Option<Diagnostic>)
        ensures
            opt_view(r) == unexpected_number_view(*arg),
    {
        if is_numeric(arg.value) {
            let msg = concat3("Expected a const name, but got a number ", arg.value, "");
            proof {
                reveal_strlit("");
            }
            Some(Diagnostic::error(arg.location, msg.as_str()))
        } else {
            None
        }
    }

    fn check_word(&self, arg: &Word) -> (r: Option<Diagnostic>)
        ensures
            opt_view(r) == word_view(*arg),
    {
        match Self::unexpected_number_warning(arg) {
            Some(d) => Some(d),
            None => {
                if any_lowercase(arg.value) {
                    let upper = to_uppercase(arg.value);
                    Some(
                        Diagnostic::warning(
                            arg.location,
                            "Using lowercase for constant names may cause confusion with attribute or command names",
                        ).suggest(
                            Fix::new(arg.location, "Use uppercase for constants").replace(
                                upper.as_str(),
                            ),
                        ),
                    )
                } else {
                    None
                }
            },
        }
    }

    fn check_arg(
        &self,
        state: &ParseState,
        atom: &Atom,
        name: &Word,
        arg_type: ArgType,
        arg: Option<Word>,
    ) -> (r: Option<Diagnostic>)
        ensures
            opt_view(r) == check_arg_view(*state, *atom, *name, arg_type, arg),
    {
        let arg = match arg {
            Some(a) => a,
            None => {
                let msg = concat3("Missing arguments to ", name.value, "");
                proof {
                    reveal_strlit("");
                }
                return Some(Diagnostic::error(atom.location, msg.as_str()));
            },
        };
        match arg_type {
            ArgType::Number => self.check_number(name, &arg),
            ArgType::Word => self.check_word(&arg),
            ArgType::OptionalToken => match Self::unexpected_number_warning(&arg) {
                Some(d) => Some(d),
                None => self.check_ever_defined(state, &arg),
            },
            ArgType::Token => match Self::unexpected_number_warning(&arg) {
                Some(d) => Some(d),
                None => self.check_defined_with_value(state, &arg),
            },
            ArgType::Filename => None,
        }
    }

    /// Check the arguments to an `assign_to` attribute.
    fn check_assign_to(&self, args: &[Word], warnings: &mut Vec<Diagnostic>)
        ensures
            views(final(warnings)@) == views(old(warnings)@) + assign_to_view(args@),
    {
        let ghost before = views(warnings@);
        let target: Option<AssignTarget> = if args.len() > 0 {
            if str_eq(args[0].value, "AT_COLOR") {
                Some(AssignTarget::Color)
            } else if str_eq(args[0].value, "AT_PLAYER") {
                Some(AssignTarget::Player)
            } else if str_eq(args[0].value, "AT_TEAM") {
                Some(AssignTarget::Team)
            } else {
                push_warning(
                    warnings,
                    &args[0],
                    "`assign_to` Target must be AT_COLOR, AT_PLAYER, AT_TEAM",
                );
                None
            }
        } else {
            None
        };
        assert(target == assign_target(args@));
        let ghost after_target = views(warnings@);
        if let Some(number) = number_arg_at(args, 1) {
            match target {
                Some(AssignTarget::Team) => {
                    if (number < -4 || number > 4) && number != -10 {
                        push_warning(
                            warnings,
                            &args[1],
                            "`assign_to` Number must be 1-4 when targeting AT_TEAM",
                        );
                    }
                },
                Some(_) => {
                    if number < 0 || number > 8 {
                        push_warning(
                            warnings,
                            &args[1],
                            "`assign_to` Number must be 1-8 when targeting AT_COLOR or AT_PLAYER",
                        );
                    }
                },
                None => {},
            }
        }
        let ghost after_number = views(warnings@);
        if let Some(mode) = number_arg_at(args, 2) {
            match target {
                Some(AssignTarget::Team) => {
                    if mode != -1 && mode != 0 {
                        push_warning(
                            warnings,
                            &args[2],
                            "`assign_to` Mode must be 0 (random selection) or -1 (ordered selection) when targeting AT_TEAM",
                        );
                    }
                },
                Some(_) => {
                    if mode != 0 {
                        push_warning(
                            warnings,
                            &args[2],
                            "`assign_to` Mode should be 0 when targeting AT_COLOR or AT_PLAYER",
                        );
                    }
                },
                None => {},
            }
        }
        let ghost after_mode = views(warnings@);
        if let Some(flags) = number_arg_at(args, 3) {
            let mask: i32 = 1 | 2;
            assert(mask == 3) by (bit_vector)
                requires
                    mask == 1i32 | 2i32,
            ;
            assert(((flags & 3) != flags) == !(0 <= flags && flags <= 3)) by (bit_vector);
            if (flags & mask) != flags {
                push_warning(
                    warnings,
                    &args[3],
                    "`assign_to` Flags must only combine flags 1 and 2",
                );
            }
        }
        assert(views(warnings@) =~= before + assign_to_view(args@));
    }

    /// The checks that belong to particular commands.
    fn command_checks(&self, name: &Word, args: &[Word], warnings: &mut Vec<Diagnostic>)
        ensures
            views(final(warnings)@) == views(old(warnings)@) + command_checks(*name, args@),
    {
        let ghost before = views(warnings@);
        if str_eq(name.value, "base_elevation") && args.len() > 0 {
            if let Some(n) = number_arg_at(args, 0) {
                if n < 0 || n > 7 {
                    push_warning(warnings, &args[0], "Elevation value out of range (0 or 1-7)");
                }
            }
        } else if str_eq(name.value, "land_position") {
            if let Some(first) = number_arg_at(args, 0) {
                if first < 0 || first > 100 {
                    push_warning(warnings, &args[0], "Land position out of range (0-100)");
                }
            }
            if let Some(second) = number_arg_at(args, 1) {
                if second < 0 || second > 99 {
                    push_warning(warnings, &args[1], "Land position out of range (0-99)");
                }
            }
        } else if str_eq(name.value, "zone") && args.len() > 0 {
            if str_eq(args[0].value, "99") {
                push_warning(warnings, &args[0], "`zone 99` crashes the game");
            }
        } else if str_eq(name.value, "assign_to") {
            self.check_assign_to(args, warnings);
        }
        assert(views(warnings@) =~= before + command_checks(*name, args@));
    }

    /// The diagnostics for one atom.
    pub fn lint_atom(&mut self, state: &ParseState, atom: &Atom) -> (r: Vec<Diagnostic>)
        requires
            command_known(*atom),
        ensures
            views(r@) == arg_types_view(*state, *atom),
    {
        match &atom.kind {
            AtomKind::Command { name, arguments } => {
                let low = ascii_lowercase(name.value.as_bytes());
                let token_type = match lookup_token(low.as_slice()) {
                    Some(t) => t,
                    None => {
                        return Vec::new();
                    },
                };
                let ghost types = token_type.info().arg_types;
                let n = token_type.arg_len();
                let mut warnings: Vec<Diagnostic> = Vec::new();
                let mut i: u8 = 0;
                assert(views(warnings@) =~= Seq::<DiagnosticView>::empty());
                while i < n
                    invariant
                        i <= n <= 4,
                        n == spec_arg_len(types),
                        types == token_type.info().arg_types,
                        views(warnings@) == arg_checks(
                            *state,
                            *atom,
                            *name,
                            types,
                            arguments@,
                            i as int,
                        ),
                    decreases n - i,
                {
                    let arg: Option<Word> = if (i as usize) < arguments.len() {
                        Some(arguments[i as usize])
                    } else {
                        None
                    };
                    match token_type.arg_type(i) {
                        Some(t) => {
                            let d = self.check_arg(state, atom, name, *t, arg);
                            push_opt(&mut warnings, d);
                        },
                        None => {
                            assert(views(warnings@) =~= views(warnings@) + Seq::<
                                DiagnosticView,
                            >::empty());
                        },
                    }
                    i = i + 1;
                }
                self.command_checks(name, arguments.as_slice(), &mut warnings);
                warnings
            },
            _ => Vec::new(),
        }
    }
}

} // verus!

verus! {

/// Does one of the diagnostics carry this message?
pub open spec fn has_message(ds: Seq<DiagnosticView>, m: Seq<char>) -> bool {
    exists|i: int| 0 <= i < ds.len() && (#[trigger] ds[i]).message == m
}

/// `assign_to` warns about its target exactly when there is a first argument and it is none of
/// the words `AT_COLOR`, `AT_PLAYER` and `AT_TEAM`. With `AT_COLOR` or `AT_PLAYER`, a number
/// from 0 to 8 draws no warning about the number, and a mode of 0 none about the mode.
pub proof fn law_assign_to_targets(args: Seq<Word>)
    ensures
        has_message(assign_to_view(args), "`assign_to` Target must be AT_COLOR, AT_PLAYER, AT_TEAM"@)
            <==> (args.len() > 0 && args[0].value@ != "AT_COLOR"@ && args[0].value@ != "AT_PLAYER"@
            && args[0].value@ != "AT_TEAM"@),
        args.len() > 1 && (args[0].value@ == "AT_COLOR"@ || args[0].value@ == "AT_PLAYER"@) && (
        number_arg(args, 1) matches Some(n) && 0 <= n <= 8) ==> !has_message(
            assign_to_view(args),
            "`assign_to` Number must be 1-8 when targeting AT_COLOR or AT_PLAYER"@,
        ),
        args.len() > 2 && (args[0].value@ == "AT_COLOR"@ || args[0].value@ == "AT_PLAYER"@)
            && number_arg(args, 2) == Some(0i32) ==> !has_message(
            assign_to_view(args),
            "`assign_to` Mode should be 0 when targeting AT_COLOR or AT_PLAYER"@,
        ),
{
    reveal_strlit("AT_COLOR");
    reveal_strlit("AT_PLAYER");
    reveal_strlit("AT_TEAM");
    reveal_strlit("`assign_to` Flags must only combine flags 1 and 2");
    reveal_strlit("`assign_to` Mode must be 0 (random selection) or -1 (ordered selection) when targeting AT_TEAM");
    reveal_strlit("`assign_to` Mode should be 0 when targeting AT_COLOR or AT_PLAYER");
    reveal_strlit("`assign_to` Number must be 1-4 when targeting AT_TEAM");
    reveal_strlit("`assign_to` Number must be 1-8 when targeting AT_COLOR or AT_PLAYER");
    reveal_strlit("`assign_to` Target must be AT_COLOR, AT_PLAYER, AT_TEAM");
    let ds = assign_to_view(args);
    let tm = "`assign_to` Target must be AT_COLOR, AT_PLAYER, AT_TEAM"@;
    let target = assign_target(args);
    let tw = if args.len() > 0 && target is None {
        seq![warning_at(args[0], tm)]
    } else {
        Seq::<DiagnosticView>::empty()
    };
    let rest = ds.subrange(tw.len() as int, ds.len() as int);
    assert(ds =~= tw + rest);
    lemma_assign_to_rest(args);
    let bad = args.len() > 0 && args[0].value@ != "AT_COLOR"@ && args[0].value@ != "AT_PLAYER"@
        && args[0].value@ != "AT_TEAM"@;
    if bad {
        assert(target is None);
        assert(ds[0].message == tm);
    } else {
        assert forall|i: int| 0 <= i < ds.len() implies (#[trigger] ds[i]).message != tm by {
            assert(ds[i] == rest[i]);
        }
    }
    if args.len() > 1 && (args[0].value@ == "AT_COLOR"@ || args[0].value@ == "AT_PLAYER"@) && (
    number_arg(args, 1) matches Some(n) && 0 <= n <= 8) {
        assert forall|i: int| 0 <= i < ds.len() implies (#[trigger] ds[i]).message
            != "`assign_to` Number must be 1-8 when targeting AT_COLOR or AT_PLAYER"@ by {
            assert(ds[i] == rest[i]);
        }
    }
    if args.len() > 2 && (args[0].value@ == "AT_COLOR"@ || args[0].value@ == "AT_PLAYER"@)
        && number_arg(args, 2) == Some(0i32) {
        assert forall|i: int| 0 <= i < ds.len() implies (#[trigger] ds[i]).message
            != "`assign_to` Mode should be 0 when targeting AT_COLOR or AT_PLAYER"@ by {
            assert(ds[i] == rest[i]);
        }
    }
}

/// The diagnostics of `assign_to` after the one about its target: their messages, and which of
/// them a player or colour target with a number from 0 to 8, or a mode of 0, rules out.
proof fn lemma_assign_to_rest(args: Seq<Word>)
    ensures
        ({
            let ds = assign_to_view(args);
            let k = if args.len() > 0 && assign_target(args) is None { 1int } else { 0int };
            let pc = args.len() > 0 && (args[0].value@ == "AT_COLOR"@ || args[0].value@ == "AT_PLAYER"@);
            &&& k <= ds.len()
            &&& forall|i: int| k <= i < ds.len() ==> {
                let m = (#[trigger] ds[i]).message;
                &&& m != "`assign_to` Target must be AT_COLOR, AT_PLAYER, AT_TEAM"@
                &&& (pc && (number_arg(args, 1) matches Some(n) && 0 <= n <= 8) ==> m
                    != "`assign_to` Number must be 1-8 when targeting AT_COLOR or AT_PLAYER"@)
                &&& (pc && number_arg(args, 2) == Some(0i32) ==> m
                    != "`assign_to` Mode should be 0 when targeting AT_COLOR or AT_PLAYER"@)
            }
        }),
{
    reveal_strlit("AT_COLOR");
    reveal_strlit("AT_PLAYER");
    reveal_strlit("AT_TEAM");
    reveal_strlit("`assign_to` Flags must only combine flags 1 and 2");
    reveal_strlit("`assign_to` Mode must be 0 (random selection) or -1 (ordered selection) when targeting AT_TEAM");
    reveal_strlit("`assign_to` Mode should be 0 when targeting AT_COLOR or AT_PLAYER");
    reveal_strlit("`assign_to` Number must be 1-4 when targeting AT_TEAM");
    reveal_strlit("`assign_to` Number must be 1-8 when targeting AT_COLOR or AT_PLAYER");
    reveal_strlit("`assign_to` Target must be AT_COLOR, AT_PLAYER, AT_TEAM");
    let target = assign_target(args);
    let tw = if args.len() > 0 && target is None {
        seq![warning_at(args[0], "`assign_to` Target must be AT_COLOR, AT_PLAYER, AT_TEAM"@)]
    } else {
        Seq::<DiagnosticView>::empty()
    };
    let nw = match number_arg(args, 1) {
        Some(n) => match target {
            Some(AssignTarget::Team) => if (n < -4 || n > 4) && n != -10 {
                seq![warning_at(args[1], "`assign_to` Number must be 1-4 when targeting AT_TEAM"@)]
            } else {
                Seq::empty()
            },
            Some(_) => if n < 0 || n > 8 {
                seq![
                    warning_at(
                        args[1],
                        "`assign_to` Number must be 1-8 when targeting AT_COLOR or AT_PLAYER"@,
                    ),
                ]
            } else {
                Seq::empty()
            },
            None => Seq::empty(),
        },
        None => Seq::empty(),
    };
    let mw = match number_arg(args, 2) {
        Some(m) => match target {
            Some(AssignTarget::Team) => if m != -1 && m != 0 {
                seq![
                    warning_at(
                        args[2],
                        "`assign_to` Mode must be 0 (random selection) or -1 (ordered selection) when targeting AT_TEAM"@,
                    ),
                ]
            } else {
                Seq::empty()
            },
            Some(_) => if m != 0 {
                seq![
                    warning_at(
                        args[2],
                        "`assign_to` Mode should be 0 when targeting AT_COLOR or AT_PLAYER"@,
                    ),
                ]
            } else {
                Seq::empty()
            },
            None => Seq::empty(),
        },
        None => Seq::empty(),
    };
    let fw = match number_arg(args, 3) {
        Some(f) => if !(0 <= f && f <= 3) {
            seq![warning_at(args[3], "`assign_to` Flags must only combine flags 1 and 2"@)]
        } else {
            Seq::empty()
        },
        None => Seq::empty(),
    };
    let ds = assign_to_view(args);
    assert(ds == tw + nw + mw + fw);
    let k = tw.len() as int;
    assert("`assign_to` Target must be AT_COLOR, AT_PLAYER, AT_TEAM"@.len() == 55);
    assert("`assign_to` Number must be 1-8 when targeting AT_COLOR or AT_PLAYER"@.len() == 67);
    assert("`assign_to` Mode should be 0 when targeting AT_COLOR or AT_PLAYER"@.len() == 65);
    assert("`assign_to` Number must be 1-4 when targeting AT_TEAM"@.len() == 53);
    assert("`assign_to` Mode must be 0 (random selection) or -1 (ordered selection) when targeting AT_TEAM"@.len() == 94);
    assert("`assign_to` Flags must only combine flags 1 and 2"@.len() == 49);
    assert("AT_COLOR"@.len() == 8 && "AT_PLAYER"@.len() == 9 && "AT_TEAM"@.len() == 7);
    let pc = args.len() > 0 && (args[0].value@ == "AT_COLOR"@ || args[0].value@ == "AT_PLAYER"@);
    assert(pc ==> (target matches Some(t) && t != AssignTarget::Team));
    assert forall|i: int| k <= i < ds.len() implies {
        let m = (#[trigger] ds[i]).message;
        let pc = args.len() > 0 && (args[0].value@ == "AT_COLOR"@ || args[0].value@ == "AT_PLAYER"@);
        &&& m != "`assign_to` Target must be AT_COLOR, AT_PLAYER, AT_TEAM"@
        &&& (pc && (number_arg(args, 1) matches Some(n) && 0 <= n <= 8) ==> m
            != "`assign_to` Number must be 1-8 when targeting AT_COLOR or AT_PLAYER"@)
        &&& (pc && number_arg(args, 2) == Some(0i32) ==> m
            != "`assign_to` Mode should be 0 when targeting AT_COLOR or AT_PLAYER"@)
    } by {
        if i < k + nw.len() {
            assert(ds[i] == nw[i - k]);
        } else if i < k + nw.len() + mw.len() {
            assert(ds[i] == mw[i - k - nw.len()]);
        } else {
            assert(ds[i] == fw[i - k - nw.len() - mw.len()]);
        }
    }
}

/// The range checks of particular commands, over every argument list:
/// - `assign_to` warns about its target exactly when its first argument is none of `AT_COLOR`,
///   `AT_PLAYER` and `AT_TEAM`;
/// - `base_elevation` warns exactly when its first argument is a number outside 0 to 7;
/// - `land_position` warns about its first argument exactly when it is a number outside 0 to
///   100, and about its second exactly when it is a number outside 0 to 99;
/// - `zone 99` is reported as crashing the game, and no other zone is.
pub proof fn law_command_ranges(name: Word, args: Seq<Word>)
    ensures
        name.value@ == "assign_to"@ ==> (has_message(
            command_checks(name, args),
            "`assign_to` Target must be AT_COLOR, AT_PLAYER, AT_TEAM"@,
        ) <==> (args.len() > 0 && args[0].value@ != "AT_COLOR"@ && args[0].value@ != "AT_PLAYER"@
            && args[0].value@ != "AT_TEAM"@)),
        name.value@ == "base_elevation"@ ==> command_checks(name, args) == (if args.len() > 0 && (
        number_arg(args, 0) matches Some(v) && (v < 0 || v > 7)) {
            seq![warning_at(args[0], "Elevation value out of range (0 or 1-7)"@)]
        } else {
            Seq::empty()
        }),
        name.value@ == "land_position"@ ==> command_checks(name, args) == (if number_arg(args, 0) matches Some(v) && (v < 0 || v > 100) {
            seq![warning_at(args[0], "Land position out of range (0-100)"@)]
        } else {
            Seq::empty()
        }) + (if number_arg(args, 1) matches Some(v) && (v < 0 || v > 99) {
            seq![warning_at(args[1], "Land position out of range (0-99)"@)]
        } else {
            Seq::empty()
        }),
        name.value@ == "zone"@ ==> command_checks(name, args) == (if args.len() > 0 && args[0].value@
            == "99"@ {
            seq![warning_at(args[0], "`zone 99` crashes the game"@)]
        } else {
            Seq::empty()
        }),
{
    reveal_strlit("assign_to");
    reveal_strlit("base_elevation");
    reveal_strlit("land_position");
    reveal_strlit("zone");
    assert("assign_to"@.len() == 9 && "base_elevation"@.len() == 14 && "land_position"@.len() == 13
        && "zone"@.len() == 4);
    law_assign_to_targets(args);
    let d0 = if number_arg(args, 0) matches Some(v) && (v < 0 || v > 100) {
        seq![warning_at(args[0], "Land position out of range (0-100)"@)]
    } else {
        Seq::<DiagnosticView>::empty()
    };
    let d1 = if number_arg(args, 1) matches Some(v) && (v < 0 || v > 99) {
        seq![warning_at(args[1], "Land position out of range (0-99)"@)]
    } else {
        Seq::<DiagnosticView>::empty()
    };
    if name.value@ == "land_position"@ {
        assert(command_checks(name, args) =~= d0 + d1);
    }
}

/// When an argument draws a diagnostic, and of which kind, by the type the command expects:
/// - a missing argument is an error at the command;
/// - a number argument is an error at the argument exactly when it is neither a number nor a
///   valid `rnd(..)` call;
/// - a constant's name is an error when it is a number, and otherwise a warning exactly when no
///   `#const` defines it;
/// - a condition's name is an error when it is a number, and otherwise a warning exactly when
///   no `#define` may define it;
/// - a plain word is an error when it is a number, and otherwise a warning exactly when it has
///   lower-case letters;
/// - a file name is never reported.
pub proof fn law_argument_problems(
    state: ParseState,
    atom: Atom,
    name: Word,
    arg_type: ArgType,
    arg: Option<Word>,
)
    ensures
        ({
            let r = check_arg_view(state, atom, name, arg_type, arg);
            match arg {
                None => r matches Some(d) && d.severity == Severity::Error && d.location
                    == atom.location,
                Some(a) => {
                    let number = parses(text(a));
                    match arg_type {
                        ArgType::Number => (r is Some <==> !(number || valid_rnd(a.value@).0)) && (
                        r matches Some(d) ==> d.severity == Severity::Error && d.location
                            == a.location),
                        ArgType::Token => (r is Some <==> (number || !state.spec_has_const(
                            text(a),
                        ))) && (r matches Some(d) ==> d.location == a.location && d.severity == (
                        if number {
                            Severity::Error
                        } else {
                            Severity::Warning
                        })),
                        ArgType::OptionalToken => (r is Some <==> (number
                            || !state.spec_may_have_define(text(a)))) && (r matches Some(d)
                            ==> d.location == a.location && d.severity == (if number {
                            Severity::Error
                        } else {
                            Severity::Warning
                        })),
                        ArgType::Word => (r is Some <==> (number || has_lowercase(a.value@))) && (
                        r matches Some(d) ==> d.location == a.location && d.severity == (
                        if number {
                            Severity::Error
                        } else {
                            Severity::Warning
                        })),
                        ArgType::Filename => r is None,
                    }
                },
            }
        }),
{
}

} // verus!
