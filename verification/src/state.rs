//! State tracker while parsing AoE2 random map scripts.

use crate::diagnostic::{
    diagnostic_view, label_view, Diagnostic, DiagnosticView, Label, LabelView, SourceLocation,
    Severity,
};
use crate::parser::{
    atom_matches, parse_step, same_atom, text, Atom, AtomKind, AtomShape, Parser,
};
use crate::rms_file::RMSFile;
use crate::text::{
    bytes_eq, chars_eq_str, lower_char_vec, lower_chars, str_chars, sub_chars, trim_char_vec,
    trim_chars,
};
use crate::wordize::{words_of, Word};
use vstd::prelude::*;
use vstd::string::*;

verus! {

broadcast use vstd::seq::group_seq_axioms;

/// The target compatibility for a map script.
#[derive(Debug, Clone, Copy, PartialEq, Eq, Structural)]
pub enum Compatibility {
    /// The Conquerors.
    Conquerors,
    /// Target UserPatch 1.4, accept the features it added.
    UserPatch14,
    /// Target UserPatch 1.5, accept the features it added.
    UserPatch15,
    /// Target WololoKingdoms: use UserPatch 1.5, constants for HD Edition DLC units and terrains,
    /// and auto-use UserPatch-specific constants.
    WololoKingdoms,
    /// Target HD Edition (assumes all DLCs).
    HDEdition,
    /// Target Definitive Edition.
    DefinitiveEdition,
    /// Try to be maximally compatible. This is basically the same as targeting Conquerors.
    All,
}

impl Compatibility {
    /// The rank of a compatibility level, by which levels are ordered: All, Conquerors, HD
    /// Edition, UserPatch 1.4, UserPatch 1.5, WololoKingdoms, Definitive Edition.
    pub open spec fn spec_level(self) -> u8 {
        match self {
            Compatibility::All => 0,
            Compatibility::Conquerors => 1,
            Compatibility::HDEdition => 2,
            Compatibility::UserPatch14 => 3,
            Compatibility::UserPatch15 => 4,
            Compatibility::WololoKingdoms => 5,
            Compatibility::DefinitiveEdition => 6,
        }
    }

    /// The rank of this level.
    pub fn level(self) -> (r: u8)
        ensures
            r == self.spec_level(),
    {
        match self {
            Compatibility::All => 0,
            Compatibility::Conquerors => 1,
            Compatibility::HDEdition => 2,
            Compatibility::UserPatch14 => 3,
            Compatibility::UserPatch15 => 4,
            Compatibility::WololoKingdoms => 5,
            Compatibility::DefinitiveEdition => 6,
        }
    }

    /// Is this level at least `other`?
    pub fn at_least(self, other: Compatibility) -> (r: bool)
        ensures
            r == (self.spec_level() >= other.spec_level()),
    {
        self.level() >= other.level()
    }
}

impl Default for Compatibility {
    fn default() -> (r: Compatibility)
        ensures
            r == Compatibility::Conquerors,
    {
        Compatibility::Conquerors
    }
}

/// Enum for the different atoms that introduce nested contexts.
#[derive(Debug, Clone)]
pub enum Nesting<'a> {
    /// An opening `if` statement.
    If(Atom<'a>),
    /// An `elseif` statement.
    ElseIf(Atom<'a>),
    /// An `else` statement.
    Else(Atom<'a>),
    /// An opening `start_random` statement.
    StartRandom(Atom<'a>),
    /// An opening `percent_chance` statement.
    PercentChance(Atom<'a>),
    /// An opening brace (`{`), introducing a block with attributes.
    Brace(Atom<'a>),
}

/// The kinds of nested contexts.
#[derive(Debug, Clone, Copy, PartialEq, Eq, Structural)]
pub enum NestingKind {
    If,
    ElseIf,
    Else,
    StartRandom,
    PercentChance,
    Brace,
}

/// The kind of a nested context and the location of the atom that opened it.
pub open spec fn nest_view(n: Nesting) -> (NestingKind, SourceLocation) {
    match n {
        Nesting::If(a) => (NestingKind::If, a.location),
        Nesting::ElseIf(a) => (NestingKind::ElseIf, a.location),
        Nesting::Else(a) => (NestingKind::Else, a.location),
        Nesting::StartRandom(a) => (NestingKind::StartRandom, a.location),
        Nesting::PercentChance(a) => (NestingKind::PercentChance, a.location),
        Nesting::Brace(a) => (NestingKind::Brace, a.location),
    }
}

impl<'a> Nesting<'a> {
    /// The kind of this context.
    pub fn kind(&self) -> (r: NestingKind)
        ensures
            r == nest_view(*self).0,
    {
        match self {
            Nesting::If(_) => NestingKind::If,
            Nesting::ElseIf(_) => NestingKind::ElseIf,
            Nesting::Else(_) => NestingKind::Else,
            Nesting::StartRandom(_) => NestingKind::StartRandom,
            Nesting::PercentChance(_) => NestingKind::PercentChance,
            Nesting::Brace(_) => NestingKind::Brace,
        }
    }

    /// The location of the atom that opened this context.
    pub fn location(&self) -> (r: SourceLocation)
        ensures
            r == nest_view(*self).1,
    {
        match self {
            Nesting::If(a) => a.location,
            Nesting::ElseIf(a) => a.location,
            Nesting::Else(a) => a.location,
            Nesting::StartRandom(a) => a.location,
            Nesting::PercentChance(a) => a.location,
            Nesting::Brace(a) => a.location,
        }
    }
}

/// A `#const` or `#define` definition.
#[derive(Debug, Clone)]
pub struct ConstDefinition<'a> {
    atom: Atom<'a>,
    name: Word<'a>,
    value: Option<Word<'a>>,
}

impl<'a> ConstDefinition<'a> {
    /// The name word of this definition.
    pub closed spec fn spec_name(&self) -> Word<'a> {
        self.name
    }

    /// The atom of this definition.
    pub closed spec fn spec_atom(&self) -> Atom<'a> {
        self.atom
    }

    /// Get the name of this definition.
    pub fn name(&self) -> (r: &'a str)
        ensures
            r == self.spec_name().value,
    {
        self.name.value
    }

    /// Get the location where this const is defined.
    pub fn location(&self) -> (r: SourceLocation)
        ensures
            r == self.spec_atom().location,
    {
        self.atom.location
    }
}

/// The names of a list of definitions.
pub open spec fn def_names(defs: Seq<ConstDefinition>) -> Seq<Seq<u8>> {
    defs.map_values(|d: ConstDefinition| text(d.spec_name()))
}

/// `i` is the first position of `n` in `names`.
pub open spec fn is_first_index(names: Seq<Seq<u8>>, n: Seq<u8>, i: int) -> bool {
    &&& 0 <= i < names.len()
    &&& names[i] == n
    &&& forall|j: int| 0 <= j < i ==> names[j] != n
}

/// The names with `n` added, unless it is there already.
pub open spec fn insert_name(names: Seq<Seq<u8>>, n: Seq<u8>) -> Seq<Seq<u8>> {
    if names.contains(n) {
        names
    } else {
        names.push(n)
    }
}

/// The names that the `#const` (or, when `consts` is false, `#define`) statements from word `p`
/// on define.
pub open spec fn defined_names(ws: Seq<Word>, p: int, consts: bool) -> Seq<Seq<u8>>
    decreases ws.len() - p,
{
    if p < 0 || p >= ws.len() {
        Seq::empty()
    } else {
        let step = parse_step(ws, p);
        if step.next <= p || step.next > ws.len() {
            Seq::empty()
        } else {
            let here: Seq<Seq<u8>> = match step.shape {
                AtomShape::Const { name, .. } => if consts {
                    seq![text(ws[name])]
                } else {
                    Seq::empty()
                },
                AtomShape::Define { name, .. } => if consts {
                    Seq::empty()
                } else {
                    seq![text(ws[name])]
                },
                _ => Seq::empty(),
            };
            here + defined_names(ws, step.next, consts)
        }
    }
}

/// The compatibility level that a header value names.
pub open spec fn compat_value(v: Seq<char>) -> Option<Compatibility> {
    if v == "hd edition"@ || v == "hd"@ {
        Some(Compatibility::HDEdition)
    } else if v == "conquerors"@ || v == "aoc"@ {
        Some(Compatibility::Conquerors)
    } else if v == "userpatch 1.5"@ || v == "up 1.5"@ {
        Some(Compatibility::UserPatch15)
    } else if v == "userpatch 1.4"@ || v == "up 1.4"@ || v == "userpatch"@ || v == "up"@ {
        Some(Compatibility::UserPatch14)
    } else if v == "wololokingdoms"@ || v == "wk"@ {
        Some(Compatibility::WololoKingdoms)
    } else if v == "definitive edition"@ || v == "de"@ {
        Some(Compatibility::DefinitiveEdition)
    } else {
        None
    }
}

/// The first `": "` at or after `i`.
pub open spec fn find_separator(s: Seq<char>, i: int) -> Option<int>
    decreases s.len() - i,
{
    if i < 0 || i + 1 >= s.len() {
        None
    } else if s[i] == ':' && s[i + 1] == ' ' {
        Some(i)
    } else {
        find_separator(s, i + 1)
    }
}

/// The line without a leading `* `.
pub open spec fn strip_star(l: Seq<char>) -> Seq<char> {
    if l.len() >= 2 && l[0] == '*' && l[1] == ' ' {
        l.subrange(2, l.len() as int)
    } else {
        l
    }
}

/// The compatibility level that one line of a header comment sets, if any: a line
/// `Compatibility: <value>`, optionally behind `* `, in any ASCII case.
pub open spec fn header_line_value(line: Seq<char>) -> Option<Compatibility> {
    let l = strip_star(trim_chars(line));
    match find_separator(l, 0) {
        None => None,
        Some(k) => if trim_chars(lower_chars(l.subrange(0, k))) == "compatibility"@ {
            compat_value(trim_chars(lower_chars(l.subrange(k + 2, l.len() as int))))
        } else {
            None
        },
    }
}

/// The end of the line that starts at `i`: the next line feed, or the end of the text.
pub open spec fn line_end(s: Seq<char>, i: int) -> int
    decreases s.len() - i,
{
    if i < 0 || i >= s.len() {
        s.len() as int
    } else if s[i] == '\n' {
        i
    } else {
        line_end(s, i + 1)
    }
}

/// The compatibility level after reading the header lines from `i` on, starting from `cur`:
/// the last line that names one wins.
pub open spec fn header_from(s: Seq<char>, i: int, cur: Option<Compatibility>) -> Option<
    Compatibility,
>
    decreases s.len() - i,
{
    if i < 0 || i > s.len() {
        cur
    } else {
        let e = line_end(s, i);
        let next = match header_line_value(s.subrange(i, e)) {
            Some(c) => Some(c),
            None => cur,
        };
        if e >= s.len() || e < i {
            next
        } else {
            header_from(s, e + 1, next)
        }
    }
}

/// The compatibility level that a header comment sets, if any.
pub open spec fn header_compat(content: Seq<char>) -> Option<Compatibility> {
    header_from(content, 0, None)
}

/// The message and label of an unbalanced-nesting error.
pub open spec fn unbalanced_view(
    msg: Seq<char>,
    msg_nothing_open: Seq<char>,
    end: SourceLocation,
    nest: Option<(NestingKind, SourceLocation)>,
) -> DiagnosticView {
    match nest {
        None => diagnostic_view(Severity::Error, end, msg_nothing_open),
        Some((kind, start)) => label_view(
            diagnostic_view(Severity::Error, end, msg),
            LabelView { location: start, message: nest_label(kind) },
        ),
    }
}

/// The label text that points at the atom that opened a nested context.
pub open spec fn nest_label(kind: NestingKind) -> Seq<char> {
    match kind {
        NestingKind::Brace => "Matches this open brace `{`"@,
        NestingKind::If => "Matches this `if`"@,
        NestingKind::ElseIf => "Matches this `elseif`"@,
        NestingKind::Else => "Matches this `else`"@,
        NestingKind::StartRandom => "Matches this `start_random`"@,
        NestingKind::PercentChance => "Matches this `percent_chance`"@,
    }
}

/// The innermost open construct, if any.
pub open spec fn top(stack: Seq<(NestingKind, SourceLocation)>) -> Option<
    (NestingKind, SourceLocation),
> {
    if stack.len() == 0 {
        None
    } else {
        Some(stack.last())
    }
}

/// Is the innermost open construct of this kind?
pub open spec fn top_is(stack: Seq<(NestingKind, SourceLocation)>, kind: NestingKind) -> bool {
    stack.len() > 0 && stack.last().0 == kind
}

/// The stack of nested contexts after an atom, and the error the atom causes if it closes
/// something that is not open.
pub open spec fn nesting_step(stack: Seq<(NestingKind, SourceLocation)>, atom: Atom) -> (
    Seq<(NestingKind, SourceLocation)>,
    Option<DiagnosticView>,
) {
    let loc = atom.location;
    match atom.kind {
        AtomKind::OpenBlock { .. } => (stack.push((NestingKind::Brace, loc)), None),
        AtomKind::CloseBlock { .. } => if top_is(stack, NestingKind::Brace) {
            (stack.drop_last(), None)
        } else {
            (
                stack,
                Some(
                    unbalanced_view(
                        "Unbalanced `}`"@,
                        "Unbalanced `}`\u{2013}nothing is open"@,
                        loc,
                        top(stack),
                    ),
                ),
            )
        },
        AtomKind::If { .. } => (stack.push((NestingKind::If, loc)), None),
        AtomKind::ElseIf { .. } => if top_is(stack, NestingKind::If) || top_is(
            stack,
            NestingKind::ElseIf,
        ) {
            (stack.drop_last().push((NestingKind::ElseIf, loc)), None)
        } else {
            (
                stack,
                Some(
                    unbalanced_view(
                        "Unbalanced `elseif`"@,
                        "Unbalanced `elseif`\u{2013}nothing is open"@,
                        loc,
                        top(stack),
                    ),
                ),
            )
        },
        AtomKind::Else { .. } => if top_is(stack, NestingKind::If) || top_is(
            stack,
            NestingKind::ElseIf,
        ) {
            (stack.drop_last().push((NestingKind::Else, loc)), None)
        } else {
            (
                stack,
                Some(
                    unbalanced_view(
                        "Unbalanced `else`"@,
                        "Unbalanced `else`\u{2013}nothing is open"@,
                        loc,
                        top(stack),
                    ),
                ),
            )
        },
        AtomKind::EndIf { .. } => if top_is(stack, NestingKind::If) || top_is(
            stack,
            NestingKind::ElseIf,
        ) || top_is(stack, NestingKind::Else) {
            (stack.drop_last(), None)
        } else {
            (
                stack,
                Some(
                    unbalanced_view(
                        "Unbalanced `endif`"@,
                        "Unbalanced `endif`\u{2013}nothing is open"@,
                        loc,
                        top(stack),
                    ),
                ),
            )
        },
        AtomKind::StartRandom { .. } => (stack.push((NestingKind::StartRandom, loc)), None),
        AtomKind::PercentChance { .. } => {
            let s1 = if top_is(stack, NestingKind::PercentChance) {
                stack.drop_last()
            } else {
                stack
            };
            if top_is(s1, NestingKind::StartRandom) {
                (s1.push((NestingKind::PercentChance, loc)), None)
            } else {
                (
                    s1,
                    Some(
                        unbalanced_view(
                            "Unbalanced `percent_chance`"@,
                            "Unbalanced `percent_chance`\u{2013}nothing is open"@,
                            loc,
                            top(s1),
                        ),
                    ),
                )
            }
        },
        AtomKind::EndRandom { .. } => {
            let s1 = if top_is(stack, NestingKind::PercentChance) {
                stack.drop_last()
            } else {
                stack
            };
            if top_is(s1, NestingKind::StartRandom) {
                (s1.drop_last(), None)
            } else {
                (
                    s1,
                    Some(
                        unbalanced_view(
                            "Unbalanced `end_random`"@,
                            "Unbalanced `end_random`\u{2013}nothing is open"@,
                            loc,
                            top(s1),
                        ),
                    ),
                )
            }
        },
        _ => (stack, None),
    }
}

/// The state that the checker keeps while it reads a script.
#[derive(Debug)]
pub struct ParseState<'a> {
    /// The files.
    rms: &'a RMSFile,
    /// The target compatibility for this map script.
    compatibility: Compatibility,
    /// Whether this map should be treated as a builtin map. If true, #include and #include_drs
    /// should be made available.
    is_builtin_map: bool,
    /// The amount of nested statements we entered, like `if`, `start_random`.
    nesting: Vec<Nesting<'a>>,
    /// The current <SECTION>, as well as its opening token.
    current_section: Option<Atom<'a>>,
    /// List of builtin #const definitions.
    builtin_consts: Vec<&'a str>,
    /// List of builtin #define definitions.
    builtin_defines: Vec<&'a str>,
    /// List of user-mode #const definitions we've seen so far.
    consts: Vec<ConstDefinition<'a>>,
    /// List of user-mode #define definitions we've seen so far.
    defines: Vec<ConstDefinition<'a>>,
    /// List of builtin optional definitions.
    option_defines: Vec<String>,
    /// Are we still parsing header comments?
    end_of_headers: bool,
}

impl<'a> ParseState<'a> {
    pub closed spec fn spec_rms(&self) -> &'a RMSFile {
        self.rms
    }

    pub closed spec fn spec_compatibility(&self) -> Compatibility {
        self.compatibility
    }

    pub closed spec fn spec_is_builtin_map(&self) -> bool {
        self.is_builtin_map
    }

    /// The nested contexts, outermost first.
    pub closed spec fn nesting_view(&self) -> Seq<(NestingKind, SourceLocation)> {
        self.nesting@.map_values(|n: Nesting| nest_view(n))
    }

    pub closed spec fn spec_section(&self) -> Option<Atom<'a>> {
        self.current_section
    }

    pub closed spec fn builtin_const_names(&self) -> Seq<Seq<u8>> {
        self.builtin_consts@.map_values(|s: &str| s.spec_bytes())
    }

    pub closed spec fn builtin_define_names(&self) -> Seq<Seq<u8>> {
        self.builtin_defines@.map_values(|s: &str| s.spec_bytes())
    }

    /// The `#const` definitions read so far.
    pub closed spec fn spec_consts(&self) -> Seq<ConstDefinition<'a>> {
        self.consts@
    }

    /// The `#define` definitions read so far.
    pub closed spec fn spec_defines(&self) -> Seq<ConstDefinition<'a>> {
        self.defines@
    }

    pub closed spec fn option_define_names(&self) -> Seq<Seq<u8>> {
        self.option_defines@.map_values(|s: String| vstd::utf8::encode_utf8(s@))
    }

    pub closed spec fn headers_done(&self) -> bool {
        self.end_of_headers
    }

    /// May a `#define` named `name` exist?
    pub open spec fn spec_may_have_define(&self, name: Seq<u8>) -> bool {
        self.spec_has_define(name) || self.option_define_names().contains(name)
    }

    /// Does a `#define` named `name` exist?
    pub open spec fn spec_has_define(&self, name: Seq<u8>) -> bool {
        def_names(self.spec_defines()).contains(name) || self.builtin_define_names().contains(name)
    }

    /// Does a `#const` named `name` exist?
    pub open spec fn spec_has_const(&self, name: Seq<u8>) -> bool {
        def_names(self.spec_consts()).contains(name) || self.builtin_const_names().contains(name)
    }

    /// The `#const` names that are available: the script's, then the builtin ones.
    pub open spec fn spec_const_names(&self) -> Seq<Seq<u8>> {
        def_names(self.spec_consts()) + self.builtin_const_names()
    }

    /// The `#define` names that are available: the script's, then the builtin ones.
    pub open spec fn spec_define_names(&self) -> Seq<Seq<u8>> {
        def_names(self.spec_defines()) + self.builtin_define_names()
    }

    /// The builtin names are those that the definitions for the compatibility level define,
    /// and the nested contexts are well formed.
    pub closed spec fn wf(&self) -> bool {
        &&& self.rms.wf()
        &&& builtins_of(
            self.rms,
            self.compatibility,
            self.builtin_consts@.map_values(|s: &str| s.spec_bytes()),
            self.builtin_defines@.map_values(|s: &str| s.spec_bytes()),
        )
    }
}

/// `consts` and `defines` are the names that the definitions of `rms` for `compatibility`
/// define with `#const` and `#define`.
pub open spec fn builtins_of(
    rms: &RMSFile,
    compatibility: Compatibility,
    consts: Seq<Seq<u8>>,
    defines: Seq<Seq<u8>>,
) -> bool {
    let id = rms.spec_definitions_id(compatibility);
    exists|ws: Seq<Word>|
        words_of(ws, id, rms.files()[id.0 as int].spec_bytes()) && consts == defined_names(ws, 0, true)
            && defines == defined_names(ws, 0, false)
}

impl<'a> ParseState<'a> {
    /// A fresh state for a map, with the builtin names of the given compatibility level.
    pub fn new(rms: &'a RMSFile, compatibility: Compatibility) -> (r: Self)
        requires
            rms.wf(),
        ensures
            r.wf(),
            r.spec_rms() == rms,
            r.spec_compatibility() == compatibility,
            !r.spec_is_builtin_map(),
            r.nesting_view().len() == 0,
            r.spec_section() is None,
            r.spec_consts().len() == 0,
            r.spec_defines().len() == 0,
            r.option_define_names().len() == 0,
            !r.headers_done(),
    {
        let (file_id, content) = rms.definitions(compatibility);
        let (builtin_consts, builtin_defines) = builtin_names(file_id, content);
        let r = ParseState {
            rms,
            compatibility,
            is_builtin_map: false,
            nesting: Vec::new(),
            current_section: None,
            builtin_consts,
            builtin_defines,
            consts: Vec::new(),
            defines: Vec::new(),
            option_defines: Vec::new(),
            end_of_headers: false,
        };
        assert(r.nesting_view().len() == 0);
        r
    }

    /// Track that a `#define` name may or may not exist from this point.
    ///
    /// These defines are valid in `if` statements, but not in commands, for example.
    pub fn optional_define(&mut self, name: &str)
        requires
            old(self).wf(),
        ensures
            final(self).wf(),
            final(self).option_define_names() == old(self).option_define_names().push(
                name.spec_bytes(),
            ),
            same_but_options(*old(self), *final(self)),
    {
        let ghost before = self.option_defines@;
        let n = String::from_str(name);
        self.option_defines.push(n);
        proof {
            assert(self.option_defines@.map_values(|s: String| vstd::utf8::encode_utf8(s@))
                =~= before.map_values(|s: String| vstd::utf8::encode_utf8(s@)).push(
                name.spec_bytes(),
            ));
        }
    }

    /// Track that a `#define` name exists.
    pub fn define(&mut self, definition: ConstDefinition<'a>)
        requires
            old(self).wf(),
        ensures
            final(self).wf(),
            def_names(final(self).spec_defines()) == insert_name(
                def_names(old(self).spec_defines()),
                text(definition.spec_name()),
            ),
            final(self).spec_consts() == old(self).spec_consts(),
            same_but_definitions(*old(self), *final(self)),
    {
        upsert(&mut self.defines, definition);
    }

    /// Track that a `#const` name exists.
    pub fn define_const(&mut self, definition: ConstDefinition<'a>)
        requires
            old(self).wf(),
        ensures
            final(self).wf(),
            def_names(final(self).spec_consts()) == insert_name(
                def_names(old(self).spec_consts()),
                text(definition.spec_name()),
            ),
            final(self).spec_defines() == old(self).spec_defines(),
            same_but_definitions(*old(self), *final(self)),
    {
        upsert(&mut self.consts, definition);
    }

    /// Does a given `#define` name exist?
    pub fn has_define(&self, name: &str) -> (r: bool)
        ensures
            r == self.spec_has_define(name.spec_bytes()),
    {
        position_of_name(&self.defines, name).is_some() || contains_str(&self.builtin_defines, name)
    }

    /// May a given `#define` name exist at this point?
    pub fn may_have_define(&self, name: &str) -> (r: bool)
        ensures
            r == self.spec_may_have_define(name.spec_bytes()),
    {
        if self.has_define(name) {
            return true;
        }
        let mut i: usize = 0;
        while i < self.option_defines.len()
            invariant
                i <= self.option_defines@.len(),
                forall|j: int|
                    0 <= j < i ==> vstd::utf8::encode_utf8(#[trigger] self.option_defines@[j]@)
                        != name.spec_bytes(),
            decreases self.option_defines@.len() - i,
        {
            if bytes_eq(self.option_defines[i].as_str().as_bytes(), name.as_bytes()) {
                assert(self.option_define_names()[i as int] == name.spec_bytes());
                return true;
            }
            i = i + 1;
        }
        proof {
            if self.option_define_names().contains(name.spec_bytes()) {
                let k = self.option_define_names().index_of(name.spec_bytes());
                assert(vstd::utf8::encode_utf8(self.option_defines@[k]@) == name.spec_bytes());
            }
        }
        false
    }

    /// Does a given `#const` name exist?
    pub fn has_const(&self, name: &str) -> (r: bool)
        ensures
            r == self.spec_has_const(name.spec_bytes()),
    {
        position_of_name(&self.consts, name).is_some() || contains_str(&self.builtin_consts, name)
    }

    /// List all the `#const` names that are currently available: the script's, then the
    /// builtin ones.
    pub fn consts(&self) -> (r: Vec<&'a str>)
        ensures
            r@.map_values(|s: &str| s.spec_bytes()) == self.spec_const_names(),
    {
        let mut r = def_name_strs(&self.consts);
        append_strs(&mut r, &self.builtin_consts);
        r
    }

    /// List all the `#define` names that are currently available: the script's, then the
    /// builtin ones.
    pub fn defines(&self) -> (r: Vec<&'a str>)
        ensures
            r@.map_values(|s: &str| s.spec_bytes()) == self.spec_define_names(),
    {
        let mut r = def_name_strs(&self.defines);
        append_strs(&mut r, &self.builtin_defines);
        r
    }

    /// The script's `#define` definition of `name`, if any.
    pub fn get_define(&self, name: &str) -> (r: Option<&ConstDefinition<'a>>)
        ensures
            match r {
                Some(d) => exists|i: int|
                    is_first_index(def_names(self.spec_defines()), name.spec_bytes(), i) && *d
                        == #[trigger] self.spec_defines()[i],
                None => !def_names(self.spec_defines()).contains(name.spec_bytes()),
            },
    {
        match position_of_name(&self.defines, name) {
            Some(i) => {
                let d = &self.defines[i];
                assert(self.spec_defines()[i as int] == *d);
                Some(d)
            },
            None => None,
        }
    }

    /// The script's `#const` definition of `name`, if any.
    pub fn get_const(&self, name: &str) -> (r: Option<&ConstDefinition<'a>>)
        ensures
            match r {
                Some(d) => exists|i: int|
                    is_first_index(def_names(self.spec_consts()), name.spec_bytes(), i) && *d
                        == #[trigger] self.spec_consts()[i],
                None => !def_names(self.spec_consts()).contains(name.spec_bytes()),
            },
    {
        match position_of_name(&self.consts, name) {
            Some(i) => {
                let d = &self.consts[i];
                assert(self.spec_consts()[i as int] == *d);
                Some(d)
            },
            None => None,
        }
    }

    /// The files of the map.
    pub fn rms(&self) -> (r: &'a RMSFile)
        ensures
            r == self.spec_rms(),
    {
        self.rms
    }

    /// Get the compatibility mode the parser runs in.
    pub fn compatibility(&self) -> (r: Compatibility)
        ensures
            r == self.spec_compatibility(),
    {
        self.compatibility
    }

    /// Whether this map is treated as a builtin map.
    pub fn is_builtin_map(&self) -> (r: bool)
        ensures
            r == self.spec_is_builtin_map(),
    {
        self.is_builtin_map
    }

    /// The current `<SECTION>` atom, if a section was started.
    pub fn current_section(&self) -> (r: &Option<Atom<'a>>)
        ensures
            *r == self.spec_section(),
    {
        &self.current_section
    }

    /// The nested contexts that are open, outermost first.
    pub fn nesting(&self) -> (r: &[Nesting<'a>])
        ensures
            r@.map_values(|n: Nesting| nest_view(n)) == self.nesting_view(),
    {
        self.nesting.as_slice()
    }

    /// Set the compatibility mode the parser should run in.
    ///
    /// This affects the available builtin `#define` and `#const` names.
    pub fn set_compatibility(&mut self, compatibility: Compatibility)
        requires
            old(self).wf(),
        ensures
            final(self).wf(),
            final(self).spec_compatibility() == compatibility,
            same_but_compatibility(*old(self), *final(self)),
    {
        self.compatibility = compatibility;
        let (file_id, content) = self.rms.definitions(compatibility);
        let (builtin_consts, builtin_defines) = builtin_names(file_id, content);
        self.builtin_consts = builtin_consts;
        self.builtin_defines = builtin_defines;
    }

    /// Update the parse state upon reading a new Atom.
    pub fn update(&mut self, atom: &Atom<'a>)
        requires
            old(self).wf(),
        ensures
            final(self).wf(),
            update_post(*old(self), *final(self), *atom),
    {
        self.update_headers(atom);
        let ghost mid = *self;
        match &atom.kind {
            AtomKind::Section { .. } => {
                self.current_section = Some(atom.duplicate());
            },
            AtomKind::Define { name, .. } => {
                self.define(ConstDefinition { atom: atom.duplicate(), name: *name, value: None });
            },
            AtomKind::Const { name, value, .. } => {
                self.define_const(ConstDefinition { atom: atom.duplicate(), name: *name, value: *value });
            },
            _ => {},
        }
    }

    /// Read header comments at the top of the script.
    fn update_headers(&mut self, atom: &Atom<'a>)
        requires
            old(self).wf(),
        ensures
            final(self).wf(),
            headers_post(*old(self), *final(self), *atom),
    {
        if self.end_of_headers {
            return;
        }
        match &atom.kind {
            AtomKind::Comment { content, .. } => {
                match header_value(content.as_str()) {
                    Some(c) => self.set_compatibility(c),
                    None => {},
                }
            },
            _ => {
                self.end_of_headers = true;
            },
        }
    }

    /// Update the nesting state upon reading a new Atom.
    pub fn update_nesting(&mut self, atom: &Atom<'a>) -> (r: Option<Diagnostic>)
        requires
            old(self).wf(),
        ensures
            final(self).wf(),
            same_but_nesting(*old(self), *final(self)),
            (final(self).nesting_view(), match r {
                Some(d) => Some(d@),
                None => None,
            }) == nesting_step(old(self).nesting_view(), *atom),
    {
        let ghost stack = self.nesting_view();
        let loc = atom.location;
        match &atom.kind {
            AtomKind::OpenBlock { .. } => {
                self.push_nest(Nesting::Brace(atom.duplicate()));
                None
            },
            AtomKind::CloseBlock { .. } => {
                if self.top_is(NestingKind::Brace) {
                    self.pop_nest();
                    None
                } else {
                    Some(self.unbalanced("Unbalanced `}`", "Unbalanced `}`\u{2013}nothing is open", loc))
                }
            },
            AtomKind::If { .. } => {
                self.push_nest(Nesting::If(atom.duplicate()));
                None
            },
            AtomKind::ElseIf { .. } => {
                if self.top_is(NestingKind::If) || self.top_is(NestingKind::ElseIf) {
                    self.pop_nest();
                    self.push_nest(Nesting::ElseIf(atom.duplicate()));
                    None
                } else {
                    Some(self.unbalanced("Unbalanced `elseif`", "Unbalanced `elseif`\u{2013}nothing is open", loc))
                }
            },
            AtomKind::Else { .. } => {
                if self.top_is(NestingKind::If) || self.top_is(NestingKind::ElseIf) {
                    self.pop_nest();
                    self.push_nest(Nesting::Else(atom.duplicate()));
                    None
                } else {
                    Some(self.unbalanced("Unbalanced `else`", "Unbalanced `else`\u{2013}nothing is open", loc))
                }
            },
            AtomKind::EndIf { .. } => {
                if self.top_is(NestingKind::If) || self.top_is(NestingKind::ElseIf) || self.top_is(
                    NestingKind::Else,
                ) {
                    self.pop_nest();
                    None
                } else {
                    Some(self.unbalanced("Unbalanced `endif`", "Unbalanced `endif`\u{2013}nothing is open", loc))
                }
            },
            AtomKind::StartRandom { .. } => {
                self.push_nest(Nesting::StartRandom(atom.duplicate()));
                None
            },
            AtomKind::PercentChance { .. } => {
                if self.top_is(NestingKind::PercentChance) {
                    self.pop_nest();
                }
                if self.top_is(NestingKind::StartRandom) {
                    self.push_nest(Nesting::PercentChance(atom.duplicate()));
                    None
                } else {
                    Some(
                        self.unbalanced(
                            "Unbalanced `percent_chance`",
                            "Unbalanced `percent_chance`\u{2013}nothing is open",
                            loc,
                        ),
                    )
                }
            },
            AtomKind::EndRandom { .. } => {
                if self.top_is(NestingKind::PercentChance) {
                    self.pop_nest();
                }
                if self.top_is(NestingKind::StartRandom) {
                    self.pop_nest();
                    None
                } else {
                    Some(
                        self.unbalanced(
                            "Unbalanced `end_random`",
                            "Unbalanced `end_random`\u{2013}nothing is open",
                            loc,
                        ),
                    )
                }
            },
            _ => None,
        }
    }

    fn top_is(&self, kind: NestingKind) -> (r: bool)
        ensures
            r == top_is(self.nesting_view(), kind),
    {
        if self.nesting.len() == 0 {
            false
        } else {
            self.nesting[self.nesting.len() - 1].kind() == kind
        }
    }

    fn push_nest(&mut self, n: Nesting<'a>)
        requires
            old(self).wf(),
        ensures
            final(self).wf(),
            same_but_nesting(*old(self), *final(self)),
            final(self).nesting_view() == old(self).nesting_view().push(nest_view(n)),
    {
        let ghost before = self.nesting@;
        self.nesting.push(n);
        assert(self.nesting@.map_values(|n: Nesting| nest_view(n)) =~= before.map_values(
            |n: Nesting| nest_view(n),
        ).push(nest_view(n)));
    }

    fn pop_nest(&mut self)
        requires
            old(self).wf(),
            old(self).nesting_view().len() > 0,
        ensures
            final(self).wf(),
            same_but_nesting(*old(self), *final(self)),
            final(self).nesting_view() == old(self).nesting_view().drop_last(),
    {
        let ghost before = self.nesting@;
        self.nesting.pop();
        assert(self.nesting@.map_values(|n: Nesting| nest_view(n)) =~= before.map_values(
            |n: Nesting| nest_view(n),
        ).drop_last());
    }

    fn unbalanced(&self, msg: &str, msg_nothing_open: &str, end: SourceLocation) -> (r: Diagnostic)
        ensures
            r@ == unbalanced_view(msg@, msg_nothing_open@, end, top(self.nesting_view())),
    {
        if self.nesting.len() == 0 {
            Diagnostic::error(end, msg_nothing_open)
        } else {
            let nest = &self.nesting[self.nesting.len() - 1];
            let label = match nest.kind() {
                NestingKind::Brace => "Matches this open brace `{`",
                NestingKind::If => "Matches this `if`",
                NestingKind::ElseIf => "Matches this `elseif`",
                NestingKind::Else => "Matches this `else`",
                NestingKind::StartRandom => "Matches this `start_random`",
                NestingKind::PercentChance => "Matches this `percent_chance`",
            };
            Diagnostic::error(end, msg).add_label(Label::new(nest.location(), label))
        }
    }
}

/// Everything but the optional defines is the same.
pub open spec fn same_but_options(a: ParseState, b: ParseState) -> bool {
    &&& a.spec_rms() == b.spec_rms()
    &&& a.spec_compatibility() == b.spec_compatibility()
    &&& a.spec_is_builtin_map() == b.spec_is_builtin_map()
    &&& a.nesting_view() == b.nesting_view()
    &&& a.spec_section() == b.spec_section()
    &&& a.builtin_const_names() == b.builtin_const_names()
    &&& a.builtin_define_names() == b.builtin_define_names()
    &&& a.spec_consts() == b.spec_consts()
    &&& a.spec_defines() == b.spec_defines()
    &&& a.headers_done() == b.headers_done()
}

/// Everything but the script's definitions is the same.
pub open spec fn same_but_definitions(a: ParseState, b: ParseState) -> bool {
    &&& a.spec_rms() == b.spec_rms()
    &&& a.spec_compatibility() == b.spec_compatibility()
    &&& a.spec_is_builtin_map() == b.spec_is_builtin_map()
    &&& a.nesting_view() == b.nesting_view()
    &&& a.spec_section() == b.spec_section()
    &&& a.builtin_const_names() == b.builtin_const_names()
    &&& a.builtin_define_names() == b.builtin_define_names()
    &&& a.option_define_names() == b.option_define_names()
    &&& a.headers_done() == b.headers_done()
}

/// Everything but the compatibility level and the builtin names is the same.
pub open spec fn same_but_compatibility(a: ParseState, b: ParseState) -> bool {
    &&& a.spec_rms() == b.spec_rms()
    &&& a.spec_is_builtin_map() == b.spec_is_builtin_map()
    &&& a.nesting_view() == b.nesting_view()
    &&& a.spec_section() == b.spec_section()
    &&& a.spec_consts() == b.spec_consts()
    &&& a.spec_defines() == b.spec_defines()
    &&& a.option_define_names() == b.option_define_names()
    &&& a.headers_done() == b.headers_done()
}

/// Everything but the nested contexts is the same.
pub open spec fn same_but_nesting(a: ParseState, b: ParseState) -> bool {
    &&& a.spec_rms() == b.spec_rms()
    &&& a.spec_compatibility() == b.spec_compatibility()
    &&& a.spec_is_builtin_map() == b.spec_is_builtin_map()
    &&& a.spec_section() == b.spec_section()
    &&& a.builtin_const_names() == b.builtin_const_names()
    &&& a.builtin_define_names() == b.builtin_define_names()
    &&& a.spec_consts() == b.spec_consts()
    &&& a.spec_defines() == b.spec_defines()
    &&& a.option_define_names() == b.option_define_names()
    &&& a.headers_done() == b.headers_done()
}

/// What reading an atom does to the header state: a comment before any other atom may set
/// the compatibility level, and the first other atom ends the headers.
pub open spec fn headers_post(a: ParseState, b: ParseState, atom: Atom) -> bool {
    if a.headers_done() {
        b == a
    } else {
        match atom.kind {
            AtomKind::Comment { content, .. } => match header_compat(content@) {
                Some(c) => b.spec_compatibility() == c && same_but_compatibility(a, b),
                None => b == a,
            },
            _ => b.headers_done() && b.spec_compatibility() == a.spec_compatibility()
                && b.builtin_const_names() == a.builtin_const_names()
                && b.builtin_define_names() == a.builtin_define_names() && same_but_headers(a, b),
        }
    }
}

/// Everything but the end-of-headers flag is the same.
pub open spec fn same_but_headers(a: ParseState, b: ParseState) -> bool {
    &&& a.spec_rms() == b.spec_rms()
    &&& a.spec_is_builtin_map() == b.spec_is_builtin_map()
    &&& a.nesting_view() == b.nesting_view()
    &&& a.spec_section() == b.spec_section()
    &&& a.spec_consts() == b.spec_consts()
    &&& a.spec_defines() == b.spec_defines()
    &&& a.option_define_names() == b.option_define_names()
}

/// What [`ParseState::update`] does: the headers, then the section and the definitions.
pub open spec fn update_post(a: ParseState, b: ParseState, atom: Atom) -> bool {
    exists|mid: ParseState|
        #![trigger headers_post(a, mid, atom)]
        headers_post(a, mid, atom) && {
            &&& b.spec_rms() == mid.spec_rms()
            &&& b.spec_compatibility() == mid.spec_compatibility()
            &&& b.spec_is_builtin_map() == mid.spec_is_builtin_map()
            &&& b.nesting_view() == mid.nesting_view()
            &&& b.builtin_const_names() == mid.builtin_const_names()
            &&& b.builtin_define_names() == mid.builtin_define_names()
            &&& b.option_define_names() == mid.option_define_names()
            &&& b.headers_done() == mid.headers_done()
            &&& match atom.kind {
                AtomKind::Section { .. } => b.spec_section() matches Some(s) && same_atom(s, atom)
                    && b.spec_consts() == mid.spec_consts() && b.spec_defines() == mid.spec_defines(),
                AtomKind::Define { name, .. } => b.spec_section() == mid.spec_section()
                    && b.spec_consts() == mid.spec_consts() && def_names(b.spec_defines())
                    == insert_name(def_names(mid.spec_defines()), text(name)),
                AtomKind::Const { name, .. } => b.spec_section() == mid.spec_section()
                    && b.spec_defines() == mid.spec_defines() && def_names(b.spec_consts())
                    == insert_name(def_names(mid.spec_consts()), text(name)),
                _ => b.spec_section() == mid.spec_section() && b.spec_consts() == mid.spec_consts()
                    && b.spec_defines() == mid.spec_defines(),
            }
        }
}

/// Add a definition, replacing one of the same name.
fn upsert<'a>(defs: &mut Vec<ConstDefinition<'a>>, d: ConstDefinition<'a>)
    ensures
        def_names(final(defs)@) == insert_name(def_names(old(defs)@), text(d.spec_name())),
{
    let ghost before = defs@;
    match position_of_name(defs, d.name.value) {
        Some(i) => {
            defs.set(i, d);
            assert(def_names(defs@) =~= def_names(before));
        },
        None => {
            defs.push(d);
            assert(def_names(defs@) =~= def_names(before).push(text(d.spec_name())));
        },
    }
}

/// The index of the first definition named `name`.
fn position_of_name<'a>(defs: &Vec<ConstDefinition<'a>>, name: &str) -> (r: Option<usize>)
    ensures
        match r {
            Some(i) => is_first_index(def_names(defs@), name.spec_bytes(), i as int),
            None => !def_names(defs@).contains(name.spec_bytes()),
        },
{
    let mut i: usize = 0;
    while i < defs.len()
        invariant
            i <= defs@.len(),
            forall|j: int| 0 <= j < i ==> def_names(defs@)[j] != name.spec_bytes(),
        decreases defs@.len() - i,
    {
        if bytes_eq(defs[i].name.value.as_bytes(), name.as_bytes()) {
            assert(def_names(defs@)[i as int] == name.spec_bytes());
            return Some(i);
        }
        i = i + 1;
    }
    None
}

/// Does the list hold `name`?
fn contains_str(list: &Vec<&str>, name: &str) -> (r: bool)
    ensures
        r == list@.map_values(|s: &str| s.spec_bytes()).contains(name.spec_bytes()),
{
    let mut i: usize = 0;
    while i < list.len()
        invariant
            i <= list@.len(),
            forall|j: int| 0 <= j < i ==> (#[trigger] list@[j]).spec_bytes() != name.spec_bytes(),
        decreases list@.len() - i,
    {
        if bytes_eq(list[i].as_bytes(), name.as_bytes()) {
            assert(list@.map_values(|s: &str| s.spec_bytes())[i as int] == name.spec_bytes());
            return true;
        }
        i = i + 1;
    }
    proof {
        let m = list@.map_values(|s: &str| s.spec_bytes());
        if m.contains(name.spec_bytes()) {
            let k = m.index_of(name.spec_bytes());
            assert(list@[k].spec_bytes() == name.spec_bytes());
        }
    }
    false
}

/// The names of the definitions.
fn def_name_strs<'a>(defs: &Vec<ConstDefinition<'a>>) -> (r: Vec<&'a str>)
    ensures
        r@.map_values(|s: &str| s.spec_bytes()) == def_names(defs@),
{
    let mut r: Vec<&'a str> = Vec::new();
    let mut i: usize = 0;
    while i < defs.len()
        invariant
            i <= defs@.len(),
            r@.map_values(|s: &str| s.spec_bytes()) == def_names(defs@.take(i as int)),
        decreases defs@.len() - i,
    {
        let ghost before = r@;
        let v = defs[i].name.value;
        r.push(v);
        assert(defs@.take(i + 1) =~= defs@.take(i as int).push(defs@[i as int]));
        assert(def_names(defs@.take(i + 1)) =~= def_names(defs@.take(i as int)).push(v.spec_bytes()));
        assert(r@.map_values(|s: &str| s.spec_bytes()) =~= before.map_values(|s: &str| s.spec_bytes()).push(v.spec_bytes()));
        i = i + 1;
    }
    assert(defs@.take(defs@.len() as int) =~= defs@);
    r
}

/// Append the strings of `more` to `r`.
fn append_strs<'a>(r: &mut Vec<&'a str>, more: &Vec<&'a str>)
    ensures
        final(r)@.map_values(|s: &str| s.spec_bytes()) == old(r)@.map_values(|s: &str| s.spec_bytes())
            + more@.map_values(|s: &str| s.spec_bytes()),
{
    let ghost start = r@;
    let mut i: usize = 0;
    while i < more.len()
        invariant
            i <= more@.len(),
            r@ == start + more@.take(i as int),
        decreases more@.len() - i,
    {
        r.push(more[i]);
        i = i + 1;
        assert(r@ =~= start + more@.take(i as int));
    }
    assert(more@.take(more@.len() as int) =~= more@);
    assert((start + more@).map_values(|s: &str| s.spec_bytes()) =~= start.map_values(
        |s: &str| s.spec_bytes(),
    ) + more@.map_values(|s: &str| s.spec_bytes()));
}

/// The names that the `#const` and `#define` statements of a definitions file define.
fn builtin_names<'a>(file_id: crate::diagnostic::FileId, content: &'a str) -> (r: (
    Vec<&'a str>,
    Vec<&'a str>,
))
    ensures
        exists|ws: Seq<Word>|
            words_of(ws, file_id, content.spec_bytes()) && r.0@.map_values(|s: &str| s.spec_bytes())
                == defined_names(ws, 0, true) && r.1@.map_values(|s: &str| s.spec_bytes())
                == defined_names(ws, 0, false),
{
    let mut parser = Parser::new(file_id, content);
    let ghost ws = parser.words();
    let mut consts: Vec<&'a str> = Vec::new();
    let mut defines: Vec<&'a str> = Vec::new();
    loop
        invariant
            parser.wf(),
            parser.words() == ws,
            parser.bytes() == content.spec_bytes(),
            words_of(ws, file_id, content.spec_bytes()),
            0 <= parser.pos() <= ws.len(),
            consts@.map_values(|s: &str| s.spec_bytes()) + defined_names(ws, parser.pos(), true)
                == defined_names(ws, 0, true),
            defines@.map_values(|s: &str| s.spec_bytes()) + defined_names(ws, parser.pos(), false)
                == defined_names(ws, 0, false),
        ensures
            consts@.map_values(|s: &str| s.spec_bytes()) == defined_names(ws, 0, true),
            defines@.map_values(|s: &str| s.spec_bytes()) == defined_names(ws, 0, false),
        decreases ws.len() - parser.pos(),
    {
        let ghost p = parser.pos();
        let ghost c0 = consts@;
        let ghost d0 = defines@;
        proof {
            if p < ws.len() {
                crate::parser::lemma_parse_step_advances(ws, p);
            }
        }
        match parser.next() {
            None => {
                assert(consts@.map_values(|s: &str| s.spec_bytes()) =~= defined_names(ws, 0, true));
                assert(defines@.map_values(|s: &str| s.spec_bytes()) =~= defined_names(ws, 0, false));
                break;
            },
            Some((atom, _errors)) => {
                let ghost step = parse_step(ws, p);
                match &atom.kind {
                    AtomKind::Const { name, .. } => {
                        consts.push(name.value);
                        assert(step.shape is Const);
                    },
                    AtomKind::Define { name, .. } => {
                        defines.push(name.value);
                        assert(step.shape is Define);
                    },
                    _ => {
                        assert(!(step.shape is Const));
                        assert(!(step.shape is Define));
                    },
                }
                assert(consts@.map_values(|s: &str| s.spec_bytes()) + defined_names(ws, parser.pos(), true)
                    =~= c0.map_values(|s: &str| s.spec_bytes()) + defined_names(ws, p, true));
                assert(defines@.map_values(|s: &str| s.spec_bytes()) + defined_names(ws, parser.pos(), false)
                    =~= d0.map_values(|s: &str| s.spec_bytes()) + defined_names(ws, p, false));
            },
        }
    }
    (consts, defines)
}

/// The compatibility level that a header comment sets.
fn header_value(content: &str) -> (r: Option<Compatibility>)
    ensures
        r == header_compat(content@),
{
    let s = str_chars(content);
    let mut i: usize = 0;
    let mut cur: Option<Compatibility> = None;
    loop
        invariant
            s@ == content@,
            i <= s@.len(),
            header_from(s@, i as int, cur) == header_from(s@, 0, None),
        ensures
            cur == header_from(s@, 0, None),
        decreases s@.len() - i,
    {
        let mut e = i;
        while e < s.len() && s[e] != '\n'
            invariant
                i <= e <= s@.len(),
                line_end(s@, e as int) == line_end(s@, i as int),
            decreases s@.len() - e,
        {
            e = e + 1;
        }
        let line = sub_chars(&s, i, e);
        match line_value(&line) {
            Some(c) => {
                cur = Some(c);
            },
            None => {},
        }
        if e >= s.len() {
            break;
        }
        i = e + 1;
    }
    cur
}

/// The compatibility level that one header line sets.
fn line_value(line: &[char]) -> (r: Option<Compatibility>)
    ensures
        r == header_line_value(line@),
{
    let t = trim_char_vec(line);
    let l = if t.len() >= 2 && t[0] == '*' && t[1] == ' ' {
        sub_chars(&t, 2, t.len())
    } else {
        t
    };
    let n = l.len();
    let mut k: usize = 0;
    while n > 0 && k < n - 1 && !(l[k] == ':' && l[k + 1] == ' ')
        invariant
            n == l@.len(),
            find_separator(l@, k as int) == find_separator(l@, 0),
        decreases l@.len() - k,
    {
        k = k + 1;
    }
    if n == 0 || k >= n - 1 {
        return None;
    }
    let name = trim_char_vec(&lower_char_vec(&sub_chars(&l, 0, k)));
    if !chars_eq_str(&name, "compatibility") {
        return None;
    }
    let value = trim_char_vec(&lower_char_vec(&sub_chars(&l, k + 2, l.len())));
    compat_value_of(&value)
}

/// The compatibility level that a header value names.
fn compat_value_of(v: &[char]) -> (r: Option<Compatibility>)
    ensures
        r == compat_value(v@),
{
    if chars_eq_str(v, "hd edition") || chars_eq_str(v, "hd") {
        Some(Compatibility::HDEdition)
    } else if chars_eq_str(v, "conquerors") || chars_eq_str(v, "aoc") {
        Some(Compatibility::Conquerors)
    } else if chars_eq_str(v, "userpatch 1.5") || chars_eq_str(v, "up 1.5") {
        Some(Compatibility::UserPatch15)
    } else if chars_eq_str(v, "userpatch 1.4") || chars_eq_str(v, "up 1.4") || chars_eq_str(
        v,
        "userpatch",
    ) || chars_eq_str(v, "up") {
        Some(Compatibility::UserPatch14)
    } else if chars_eq_str(v, "wololokingdoms") || chars_eq_str(v, "wk") {
        Some(Compatibility::WololoKingdoms)
    } else if chars_eq_str(v, "definitive edition") || chars_eq_str(v, "de") {
        Some(Compatibility::DefinitiveEdition)
    } else {
        None
    }
}

} // verus!
