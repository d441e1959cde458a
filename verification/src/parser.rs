//! Random map script parser, turning a source string into a sequence of parsed units called
//! "atoms".

use crate::diagnostic::{ByteIndex, FileId, SourceLocation};
use crate::text::{
    ascii_lowercase, bytes_eq, lemma_ascii_boundary, lemma_decode_bytes, lemma_str_valid,
    lower_byte, lower_bytes, str_slice,
};
use crate::tokens::{is_token, is_token_name, lookup_token, spec_arg_len, spec_lookup};
use crate::wordize::{spans, split_words, word_at, words_of, Word};
use crate::casing::{debug_string, debug_text};
use crate::lints::{concat3, concat5};
use vstd::prelude::*;
use vstd::string::*;
use vstd::utf8::*;

verus! {

broadcast use vstd::seq::group_seq_axioms;

/// The kind of error that generated a Parser warning.
#[derive(Debug, Clone, Copy, PartialEq, Eq, Structural)]
pub enum ParseErrorKind {
    /// A #const token was found, but no constant name followed it.
    MissingConstName,
    /// A #const token was found, but it was declared without a value.
    MissingConstValue,
    /// A #define token was found, but no constant name followed it.
    MissingDefineName,
    /// A command was found, but it is missing arguments.
    MissingCommandArgs,
    /// An if token was found, but no condition followed it.
    MissingIfCondition,
    /// A percent_chance token was found, but no number followed it.
    MissingPercentChance,
    /// A comment was not closed before the end of the file.
    UnclosedComment,
    /// Found an unknown word.
    UnknownWord,
}

/// An error that can occur during parsing. The Parser will keep going after encountering parse
/// errors.
#[derive(Debug, Clone, Copy, PartialEq, Eq)]
pub struct ParseError {
    pub kind: ParseErrorKind,
    pub location: SourceLocation,
}

impl ParseError {
    /// An error of the given kind at the given location.
    pub fn new(location: SourceLocation, kind: ParseErrorKind) -> (r: Self)
        ensures
            r == (ParseError { kind, location }),
    {
        ParseError { kind, location }
    }
}

/// A parsed piece of source code.
#[derive(Debug, Clone)]
pub enum AtomKind<'a> {
    /// A #const definition, with an optional value for incomplete #const statements.
    Const { head: Word<'a>, name: Word<'a>, value: Option<Word<'a>> },
    /// A #define definition.
    Define { head: Word<'a>, name: Word<'a> },
    /// An #undefine statement.
    Undefine { head: Word<'a>, name: Word<'a> },
    /// A <SECTION> token.
    Section { name: Word<'a> },
    /// An if statement with a condition.
    If { head: Word<'a>, condition: Word<'a> },
    /// An elseif statement with a condition.
    ElseIf { head: Word<'a>, condition: Word<'a> },
    /// An else statement.
    Else { head: Word<'a> },
    /// An endif statement.
    EndIf { head: Word<'a> },
    /// A start_random statement.
    StartRandom { head: Word<'a> },
    /// A percent_chance statement with a chance value.
    PercentChance { head: Word<'a>, chance: Word<'a> },
    /// An end_random statement.
    EndRandom { head: Word<'a> },
    /// The start of a block, `{`.
    OpenBlock { head: Word<'a> },
    /// The end of a block, `}`.
    CloseBlock { head: Word<'a> },
    /// A command, with a name and arguments.
    Command { name: Word<'a>, arguments: Vec<Word<'a>> },
    /// A comment, with an optional close token in case the comment was not closed.
    Comment { open: Word<'a>, content: String, close: Option<Word<'a>> },
    /// An unrecognised token.
    Other { value: Word<'a> },
}

/// A parsed piece of source code with its location.
#[derive(Debug, Clone)]
pub struct Atom<'a> {
    /// The kind of atom, and data about this kind of atom.
    pub kind: AtomKind<'a>,
    /// The source code location this atom was parsed from.
    pub location: SourceLocation,
}

impl<'a> Atom<'a> {
    /// Get the ID of the file this atom was parsed from.
    pub fn file(&self) -> (r: FileId)
        ensures
            r == self.location.file,
    {
        self.location.file
    }

    /// A copy of this atom.
    pub fn duplicate(&self) -> (r: Atom<'a>)
        ensures
            same_atom(r, *self),
    {
        let kind = match &self.kind {
            AtomKind::Const { head, name, value } => AtomKind::Const { head: *head, name: *name, value: *value },
            AtomKind::Define { head, name } => AtomKind::Define { head: *head, name: *name },
            AtomKind::Undefine { head, name } => AtomKind::Undefine { head: *head, name: *name },
            AtomKind::Section { name } => AtomKind::Section { name: *name },
            AtomKind::If { head, condition } => AtomKind::If { head: *head, condition: *condition },
            AtomKind::ElseIf { head, condition } => AtomKind::ElseIf { head: *head, condition: *condition },
            AtomKind::Else { head } => AtomKind::Else { head: *head },
            AtomKind::EndIf { head } => AtomKind::EndIf { head: *head },
            AtomKind::StartRandom { head } => AtomKind::StartRandom { head: *head },
            AtomKind::PercentChance { head, chance } => AtomKind::PercentChance { head: *head, chance: *chance },
            AtomKind::EndRandom { head } => AtomKind::EndRandom { head: *head },
            AtomKind::OpenBlock { head } => AtomKind::OpenBlock { head: *head },
            AtomKind::CloseBlock { head } => AtomKind::CloseBlock { head: *head },
            AtomKind::Command { name, arguments } => AtomKind::Command { name: *name, arguments: copy_words(arguments) },
            AtomKind::Comment { open, content, close } => AtomKind::Comment {
                open: *open,
                content: String::from_str(content.as_str()),
                close: *close,
            },
            AtomKind::Other { value } => AtomKind::Other { value: *value },
        };
        Atom { kind, location: self.location }
    }

    /// Get the full span for this atom, as a start and an end.
    pub fn range(&self) -> (r: (ByteIndex, ByteIndex))
        ensures
            r == (self.location.start, self.location.end),
    {
        (self.location.start, self.location.end)
    }
}

/// Two atoms are copies of each other: the same location, words and text.
pub open spec fn same_atom(a: Atom, b: Atom) -> bool {
    &&& a.location == b.location
    &&& match (a.kind, b.kind) {
        (
            AtomKind::Command { name: n1, arguments: a1 },
            AtomKind::Command { name: n2, arguments: a2 },
        ) => n1 == n2 && a1@ == a2@,
        (
            AtomKind::Comment { open: o1, content: c1, close: x1 },
            AtomKind::Comment { open: o2, content: c2, close: x2 },
        ) => o1 == o2 && c1@ == c2@ && x1 == x2,
        (k1, k2) => !(k1 is Command) && !(k1 is Comment) && k1 == k2,
    }
}

/// A copy of a list of words.
pub fn copy_words<'a>(v: &Vec<Word<'a>>) -> (r: Vec<Word<'a>>)
    ensures
        r@ == v@,
{
    let mut r: Vec<Word<'a>> = Vec::new();
    let mut i: usize = 0;
    while i < v.len()
        invariant
            i <= v@.len(),
            r@ == v@.take(i as int),
        decreases v@.len() - i,
    {
        r.push(v[i]);
        i = i + 1;
        assert(r@ =~= v@.take(i as int));
    }
    assert(v@.take(v@.len() as int) =~= v@);
    r
}

/// The bytes of a word.
pub open spec fn text(w: Word) -> Seq<u8> {
    w.value.spec_bytes()
}

/// Does the word start with `/*`?
pub open spec fn starts_with_open_comment(t: Seq<u8>) -> bool {
    t.len() >= 2 && t[0] == 0x2f && t[1] == 0x2a
}

/// Does the word end with `*/`?
pub open spec fn ends_with_close_comment(t: Seq<u8>) -> bool {
    t.len() >= 2 && t[t.len() - 2] == 0x2a && t[t.len() - 1] == 0x2f
}

/// A word that looks like a comment on its own, such as `/****/`.
pub open spec fn is_comment_word(t: Seq<u8>) -> bool {
    starts_with_open_comment(t) && ends_with_close_comment(t)
}

/// The word `/*/`, which reads as both the start and the end of a comment. The parser takes it
/// as the start of a comment, which the next word that ends in `*/` closes.
pub open spec fn is_degenerate_comment_word(t: Seq<u8>) -> bool {
    t.len() == 3 && t[0] == 0x2f && t[1] == 0x2a && t[2] == 0x2f
}

/// A `<SECTION>` header.
pub open spec fn is_section_word(t: Seq<u8>) -> bool {
    t.len() >= 1 && t[0] == 0x3c && t[t.len() - 1] == 0x3e && is_token_name(t)
}

/// Can a word with this text be an argument to a command?
pub open spec fn is_arg_text(t: Seq<u8>) -> bool {
    &&& t != "/*".spec_bytes()
    &&& t != "*/".spec_bytes()
    &&& t != "{".spec_bytes()
    &&& t != "}".spec_bytes()
    &&& t != "if".spec_bytes()
    &&& t != "elseif".spec_bytes()
    &&& t != "else".spec_bytes()
    &&& t != "endif".spec_bytes()
    &&& t != "start_random".spec_bytes()
    &&& t != "percent_chance".spec_bytes()
    &&& t != "end_random".spec_bytes()
    &&& !is_token_name(t)
    &&& !starts_with_open_comment(t)
    &&& !ends_with_close_comment(t)
}

/// Is the word at `q` an argument?
pub open spec fn spec_peek_arg(ws: Seq<Word>, q: int) -> bool {
    0 <= q < ws.len() && is_arg_text(text(ws[q]))
}

/// How many words after `p`, up to `n`, are arguments in a row.
pub open spec fn count_args(ws: Seq<Word>, p: int, n: int) -> int
    decreases n,
{
    if n <= 0 || !spec_peek_arg(ws, p + 1) {
        0
    } else {
        1 + count_args(ws, p + 1, n - 1)
    }
}

/// The first word at or after `q` that is exactly `*/`.
pub open spec fn find_close(ws: Seq<Word>, q: int) -> Option<int>
    decreases ws.len() - q,
{
    if q < 0 || q >= ws.len() {
        None
    } else if text(ws[q]) == "*/".spec_bytes() {
        Some(q)
    } else {
        find_close(ws, q + 1)
    }
}

/// The structure of an atom, by word indices.
pub enum AtomShape {
    Const { head: int, name: int, value: Option<int> },
    Define { head: int, name: int },
    Undefine { head: int, name: int },
    Section { name: int },
    If { head: int, condition: int },
    ElseIf { head: int, condition: int },
    Else { head: int },
    EndIf { head: int },
    StartRandom { head: int },
    PercentChance { head: int, chance: int },
    EndRandom { head: int },
    OpenBlock { head: int },
    CloseBlock { head: int },
    Command { name: int, count: int },
    /// A comment that starts with the word `open` and ends with `close`, if it is closed.
    Comment { open: int, close: Option<int> },
    /// A single word that starts with `/*` and ends with `*/`.
    WordComment { word: int },
    Other { value: int },
}

/// One step of the parser: the atom's shape and location, its errors, and the next word.
pub struct ParseStep {
    pub shape: AtomShape,
    pub location: SourceLocation,
    pub errors: Seq<ParseError>,
    pub next: int,
}

/// The location from the start of word `a` to the end of word `b`.
pub open spec fn span(ws: Seq<Word>, a: int, b: int) -> SourceLocation {
    SourceLocation { file: ws[a].location.file, start: ws[a].location.start, end: ws[b].location.end }
}

/// An atom of one shape made of the word at `p` alone.
pub open spec fn simple_step(shape: AtomShape, ws: Seq<Word>, p: int) -> ParseStep {
    ParseStep { shape, location: ws[p].location, errors: Seq::empty(), next: p + 1 }
}

/// The word at `p` as an atom of its own, with a parse error of the given kind.
pub open spec fn other_step(ws: Seq<Word>, p: int, kind: ParseErrorKind) -> ParseStep {
    ParseStep {
        shape: AtomShape::Other { value: p },
        location: ws[p].location,
        errors: seq![ParseError { kind, location: ws[p].location }],
        next: p + 1,
    }
}

/// A comment that opens at word `p`: up to the word that closes it, or to the end.
pub open spec fn comment_step(ws: Seq<Word>, p: int) -> ParseStep {
    match find_close(ws, p + 1) {
        Some(q) => ParseStep {
            shape: AtomShape::Comment { open: p, close: Some(q) },
            location: span(ws, p, q),
            errors: Seq::empty(),
            next: q + 1,
        },
        None => {
            let last = if ws.len() - 1 > p {
                ws.len() - 1
            } else {
                p
            };
            ParseStep {
                shape: AtomShape::Comment { open: p, close: None },
                location: span(ws, p, last),
                errors: seq![
                    ParseError { kind: ParseErrorKind::UnclosedComment, location: span(ws, p, last) },
                ],
                next: ws.len() as int,
            }
        },
    }
}

/// A command at word `p` with the arguments that follow it, `n` at most; a parse error when
/// fewer follow.
pub open spec fn command_step(ws: Seq<Word>, p: int, n: int) -> ParseStep {
    let k = count_args(ws, p, n);
    let location = if k > 0 {
        span(ws, p, p + k)
    } else {
        ws[p].location
    };
    ParseStep {
        shape: AtomShape::Command { name: p, count: k },
        location,
        errors: if k != n {
            seq![ParseError { kind: ParseErrorKind::MissingCommandArgs, location }]
        } else {
            Seq::empty()
        },
        next: p + 1 + k,
    }
}

/// A `#const` at word `p`, with its name and value where they follow.
pub open spec fn const_step(ws: Seq<Word>, p: int) -> ParseStep {
    if !spec_peek_arg(ws, p + 1) {
        other_step(ws, p, ParseErrorKind::MissingConstName)
    } else if spec_peek_arg(ws, p + 2) {
        ParseStep {
            shape: AtomShape::Const { head: p, name: p + 1, value: Some(p + 2) },
            location: span(ws, p, p + 2),
            errors: Seq::empty(),
            next: p + 3,
        }
    } else {
        ParseStep {
            shape: AtomShape::Const { head: p, name: p + 1, value: None },
            location: span(ws, p, p + 1),
            errors: seq![
                ParseError { kind: ParseErrorKind::MissingConstValue, location: span(ws, p, p + 1) },
            ],
            next: p + 2,
        }
    }
}

/// The atom that starts at word `p`, for `0 <= p < ws.len()`.
#[verifier::opaque]
pub open spec fn parse_step(ws: Seq<Word>, p: int) -> ParseStep {
    let t = text(ws[p]);
    let low = lower_bytes(t);
    if is_section_word(t) {
        simple_step(AtomShape::Section { name: p }, ws, p)
    } else if low == "{".spec_bytes() {
        simple_step(AtomShape::OpenBlock { head: p }, ws, p)
    } else if low == "}".spec_bytes() {
        simple_step(AtomShape::CloseBlock { head: p }, ws, p)
    } else if low == "/*".spec_bytes() || is_degenerate_comment_word(t) {
        comment_step(ws, p)
    } else if low == "if".spec_bytes() {
        if spec_peek_arg(ws, p + 1) {
            ParseStep {
                shape: AtomShape::If { head: p, condition: p + 1 },
                location: span(ws, p, p + 1),
                errors: Seq::empty(),
                next: p + 2,
            }
        } else {
            other_step(ws, p, ParseErrorKind::MissingIfCondition)
        }
    } else if low == "elseif".spec_bytes() {
        if spec_peek_arg(ws, p + 1) {
            ParseStep {
                shape: AtomShape::ElseIf { head: p, condition: p + 1 },
                location: span(ws, p, p + 1),
                errors: Seq::empty(),
                next: p + 2,
            }
        } else {
            other_step(ws, p, ParseErrorKind::MissingIfCondition)
        }
    } else if low == "else".spec_bytes() {
        simple_step(AtomShape::Else { head: p }, ws, p)
    } else if low == "endif".spec_bytes() {
        simple_step(AtomShape::EndIf { head: p }, ws, p)
    } else if low == "start_random".spec_bytes() {
        simple_step(AtomShape::StartRandom { head: p }, ws, p)
    } else if low == "percent_chance".spec_bytes() {
        if spec_peek_arg(ws, p + 1) {
            ParseStep {
                shape: AtomShape::PercentChance { head: p, chance: p + 1 },
                location: span(ws, p, p + 1),
                errors: Seq::empty(),
                next: p + 2,
            }
        } else {
            other_step(ws, p, ParseErrorKind::MissingPercentChance)
        }
    } else if low == "end_random".spec_bytes() {
        simple_step(AtomShape::EndRandom { head: p }, ws, p)
    } else if low == "#define".spec_bytes() {
        if spec_peek_arg(ws, p + 1) {
            ParseStep {
                shape: AtomShape::Define { head: p, name: p + 1 },
                location: span(ws, p, p + 1),
                errors: Seq::empty(),
                next: p + 2,
            }
        } else {
            other_step(ws, p, ParseErrorKind::MissingDefineName)
        }
    } else if low == "#undefine".spec_bytes() {
        if spec_peek_arg(ws, p + 1) {
            ParseStep {
                shape: AtomShape::Undefine { head: p, name: p + 1 },
                location: span(ws, p, p + 1),
                errors: Seq::empty(),
                next: p + 2,
            }
        } else {
            other_step(ws, p, ParseErrorKind::MissingDefineName)
        }
    } else if low == "#const".spec_bytes() {
        const_step(ws, p)
    } else if is_token_name(low) {
        command_step(ws, p, spec_arg_len(spec_lookup(low).unwrap().arg_types))
    } else if is_comment_word(low) {
        simple_step(AtomShape::WordComment { word: p }, ws, p)
    } else {
        other_step(ws, p, ParseErrorKind::UnknownWord)
    }
}

/// The atoms of the words from `p` on.
pub open spec fn parse_from(ws: Seq<Word>, p: int) -> Seq<ParseStep>
    decreases ws.len() - p,
{
    if p < 0 || p >= ws.len() {
        Seq::empty()
    } else {
        let step = parse_step(ws, p);
        if step.next <= p || step.next > ws.len() {
            Seq::empty()
        } else {
            seq![step] + parse_from(ws, step.next)
        }
    }
}

/// `atom` is the atom that `step` describes, over the words `ws` of the source bytes `src`.
pub open spec fn atom_matches(atom: Atom, step: ParseStep, ws: Seq<Word>, src: Seq<u8>) -> bool {
    &&& atom.location == step.location
    &&& match step.shape {
        AtomShape::Const { head, name, value } => atom.kind == AtomKind::Const {
            head: ws[head],
            name: ws[name],
            value: match value {
                Some(v) => Some(ws[v]),
                None => None,
            },
        },
        AtomShape::Define { head, name } => atom.kind == AtomKind::Define {
            head: ws[head],
            name: ws[name],
        },
        AtomShape::Undefine { head, name } => atom.kind == AtomKind::Undefine {
            head: ws[head],
            name: ws[name],
        },
        AtomShape::Section { name } => atom.kind == AtomKind::Section { name: ws[name] },
        AtomShape::If { head, condition } => atom.kind == AtomKind::If {
            head: ws[head],
            condition: ws[condition],
        },
        AtomShape::ElseIf { head, condition } => atom.kind == AtomKind::ElseIf {
            head: ws[head],
            condition: ws[condition],
        },
        AtomShape::Else { head } => atom.kind == AtomKind::Else { head: ws[head] },
        AtomShape::EndIf { head } => atom.kind == AtomKind::EndIf { head: ws[head] },
        AtomShape::StartRandom { head } => atom.kind == AtomKind::StartRandom { head: ws[head] },
        AtomShape::PercentChance { head, chance } => atom.kind == AtomKind::PercentChance {
            head: ws[head],
            chance: ws[chance],
        },
        AtomShape::EndRandom { head } => atom.kind == AtomKind::EndRandom { head: ws[head] },
        AtomShape::OpenBlock { head } => atom.kind == AtomKind::OpenBlock { head: ws[head] },
        AtomShape::CloseBlock { head } => atom.kind == AtomKind::CloseBlock { head: ws[head] },
        AtomShape::Command { name, count } => atom.kind matches AtomKind::Command {
            name: n,
            arguments,
        } && n == ws[name] && arguments@ == ws.subrange(name + 1, name + 1 + count),
        AtomShape::Comment { open, close } => atom.kind matches AtomKind::Comment {
            open: o,
            content,
            close: c,
        } && o == ws[open] && c == (match close {
            Some(q) => Some(ws[q]),
            None => None,
        }) && content@ == decode_utf8(
            src.subrange(
                ws[open].location.end.0 as int,
                match close {
                    Some(q) => ws[q].location.start.0 as int,
                    None => src.len() as int,
                },
            ),
        ),
        AtomShape::WordComment { word } => {
            let w = ws[word];
            let t = text(w);
            let start = w.location.start.0;
            let end = w.location.end.0;
            atom.kind matches AtomKind::Comment { open: o, content, close: Some(c) }
                && text(o) == t.subrange(0, 2) && o.location == SourceLocation {
                file: w.location.file,
                start: w.location.start,
                end: ByteIndex((start + 2) as usize),
            } && content@ == decode_utf8(t.subrange(2, t.len() - 2)) && text(c) == t.subrange(
                t.len() - 2,
                t.len() as int,
            ) && c.location == SourceLocation {
                file: w.location.file,
                start: ByteIndex((end - 2) as usize),
                end: w.location.end,
            }
        },
        AtomShape::Other { value } => atom.kind == AtomKind::Other { value: ws[value] },
    }
}

/// The arguments of a command as its description lists them: each after `", "`.
pub open spec fn listed_args(args: Seq<Word>, n: int) -> Seq<char>
    decreases n,
{
    if n <= 0 {
        seq![]
    } else {
        listed_args(args, n - 1) + ", "@ + args[n - 1].value@
    }
}

/// A short description of an atom: its kind and the words that matter, such as
/// `Const<NAME, 1>` or `Command<base_terrain, GRASS>`.
pub open spec fn atom_text(a: Atom) -> Seq<char> {
    match a.kind {
        AtomKind::Const { name, value, .. } => "Const<"@ + name.value@ + ", "@ + match value {
            Some(v) => v.value@,
            None => "()"@,
        } + ">"@,
        AtomKind::Define { name, .. } => "Define<"@ + name.value@ + ">"@,
        AtomKind::Undefine { name, .. } => "Undefine<"@ + name.value@ + ">"@,
        AtomKind::Section { name } => "Section"@ + name.value@,
        AtomKind::If { condition, .. } => "If<"@ + condition.value@ + ">"@,
        AtomKind::ElseIf { condition, .. } => "ElseIf<"@ + condition.value@ + ">"@,
        AtomKind::Else { .. } => "Else"@,
        AtomKind::EndIf { .. } => "EndIf"@,
        AtomKind::StartRandom { .. } => "StartRandom"@,
        AtomKind::PercentChance { chance, .. } => "PercentChance<"@ + chance.value@ + ">"@,
        AtomKind::EndRandom { .. } => "EndRandom"@,
        AtomKind::OpenBlock { .. } => "OpenBlock"@,
        AtomKind::CloseBlock { .. } => "CloseBlock"@,
        AtomKind::Command { name, arguments } => "Command<"@ + name.value@ + listed_args(
            arguments@,
            arguments@.len() as int,
        ) + ">"@,
        AtomKind::Comment { content, .. } => "Comment<"@ + debug_text(content@) + ">"@,
        AtomKind::Other { value } => "Other<"@ + value.value@ + ">"@,
    }
}

impl<'a> Atom<'a> {
    /// A short description of the atom, as [`atom_text`] gives it.
    pub fn to_text(&self) -> (r: String)
        ensures
            r@ == atom_text(*self),
    {
        match &self.kind {
            AtomKind::Const { name, value, .. } => {
                let v = match value {
                    Some(v) => v.value,
                    None => "()",
                };
                concat5("Const<", name.value, ", ", v, ">")
            },
            AtomKind::Define { name, .. } => concat3("Define<", name.value, ">"),
            AtomKind::Undefine { name, .. } => concat3("Undefine<", name.value, ">"),
            AtomKind::Section { name } => String::from_str("Section").concat(name.value),
            AtomKind::If { condition, .. } => concat3("If<", condition.value, ">"),
            AtomKind::ElseIf { condition, .. } => concat3("ElseIf<", condition.value, ">"),
            AtomKind::Else { .. } => String::from_str("Else"),
            AtomKind::EndIf { .. } => String::from_str("EndIf"),
            AtomKind::StartRandom { .. } => String::from_str("StartRandom"),
            AtomKind::PercentChance { chance, .. } => concat3("PercentChance<", chance.value, ">"),
            AtomKind::EndRandom { .. } => String::from_str("EndRandom"),
            AtomKind::OpenBlock { .. } => String::from_str("OpenBlock"),
            AtomKind::CloseBlock { .. } => String::from_str("CloseBlock"),
            AtomKind::Command { name, arguments } => {
                let mut text = String::from_str("Command<").concat(name.value);
                let ghost head = text@;
                let mut i: usize = 0;
                while i < arguments.len()
                    invariant
                        i <= arguments@.len(),
                        text@ == head + listed_args(arguments@, i as int),
                    decreases arguments@.len() - i,
                {
                    text = concat3(text.as_str(), ", ", arguments[i].value);
                    assert(text@ =~= head + listed_args(arguments@, i + 1));
                    i = i + 1;
                }
                text.concat(">")
            },
            AtomKind::Comment { content, .. } => {
                let quoted = debug_string(content.as_str());
                concat3("Comment<", quoted.as_str(), ">")
            },
            AtomKind::Other { value } => concat3("Other<", value.value, ">"),
        }
    }
}

/// A forgiving random map script parser, turning a stream of words into a stream of atoms.
#[derive(Debug)]
pub struct Parser<'a> {
    file: FileId,
    source: &'a str,
    words: Vec<Word<'a>>,
    pos: usize,
}

impl<'a> Parser<'a> {
    /// The words of the source.
    pub closed spec fn words(&self) -> Seq<Word<'a>> {
        self.words@
    }

    /// The index of the next word to parse.
    pub closed spec fn pos(&self) -> int {
        self.pos as int
    }

    /// The bytes of the source.
    pub closed spec fn bytes(&self) -> Seq<u8> {
        self.source.spec_bytes()
    }

    /// The file the source belongs to.
    pub closed spec fn file(&self) -> FileId {
        self.file
    }

    /// The words are those of the source, and the position lies within them.
    pub closed spec fn wf(&self) -> bool {
        &&& words_of(self.words@, self.file, self.source.spec_bytes())
        &&& self.pos <= self.words@.len()
    }

    /// Create a new parser for the given source code. The FileId is stored on parsed `Atom`s so
    /// their position in the source file can be resolved later on to generate warning messages.
    pub fn new(file_id: FileId, source: &'a str) -> (r: Self)
        ensures
            r.wf(),
            r.file() == file_id,
            r.bytes() == source.spec_bytes(),
            words_of(r.words(), file_id, source.spec_bytes()),
            r.pos() == 0,
    {
        let words = split_words(file_id, source);
        Parser { file: file_id, source, words, pos: 0 }
    }

    /// Is the word at `q` an argument?
    fn peek_arg(&self, q: usize) -> (r: bool)
        ensures
            r == spec_peek_arg(self.words@, q as int),
    {
        if q >= self.words.len() {
            return false;
        }
        is_arg(self.words[q].value.as_bytes())
    }

    /// Read a comment that starts at word `p`.
    fn read_comment(&self, p: usize) -> (r: (Atom<'a>, Vec<ParseError>, usize))
        requires
            self.wf(),
            p < self.words@.len(),
        ensures
            atom_matches(r.0, comment_step(self.words@, p as int), self.words@, self.bytes()),
            r.1@ == comment_step(self.words@, p as int).errors,
            r.2 == comment_step(self.words@, p as int).next,
    {
        let ghost ws = self.words@;
        let ghost b = self.bytes();
        let n = self.words.len();
        let open = self.words[p];
        let mut q = p + 1;
        while q < self.words.len()
            invariant
                p < q <= ws.len(),
                self.wf(),
                open == ws[p as int],
                n == ws.len(),
                ws == self.words@,
                find_close(ws, p + 1) == find_close(ws, q as int),
            decreases ws.len() - q,
        {
            if bytes_eq(self.words[q].value.as_bytes(), "*/".as_bytes()) {
                let close = self.words[q];
                let content = self.content_between(p, open.location.end.0, close.location.start.0);
                let atom = Atom {
                    kind: AtomKind::Comment { open, content, close: Some(close) },
                    location: SourceLocation {
                        file: open.location.file,
                        start: open.location.start,
                        end: close.location.end,
                    },
                };
                return (atom, Vec::new(), q + 1);
            }
            q = q + 1;
        }
        let last = if self.words.len() - 1 > p {
            self.words[self.words.len() - 1]
        } else {
            open
        };
        let location = SourceLocation {
            file: open.location.file,
            start: open.location.start,
            end: last.location.end,
        };
        let content = self.content_between(p, open.location.end.0, self.source.as_bytes().len());
        let atom = Atom { kind: AtomKind::Comment { open, content, close: None }, location };
        let mut errors = Vec::new();
        errors.push(ParseError { kind: ParseErrorKind::UnclosedComment, location });
        (atom, errors, self.words.len())
    }

    /// The source text from byte `start` to byte `end`, where `start` is the end of the word
    /// `p` and `end` is the start of a later word or the end of the source.
    fn content_between(&self, p: usize, start: usize, end: usize) -> (r: String)
        requires
            self.wf(),
            p < self.words@.len(),
            start == self.words@[p as int].location.end.0,
            end == self.bytes().len() || exists|q: int|
                p < q < self.words@.len() && end == #[trigger] self.words@[q].location.start.0,
        ensures
            r@ == decode_utf8(self.bytes().subrange(start as int, end as int)),
    {
        let ghost ws = self.words@;
        let ghost b = self.bytes();
        proof {
            lemma_str_valid(self.source);
            assert(word_at(ws[p as int], self.file, b, spans(b)[p as int].0, spans(b)[p as int].1));
            if start == b.len() {
                is_char_boundary_start_end_of_seq(b);
            } else {
                lemma_ascii_boundary(b, start as int);
            }
            if end == b.len() {
                is_char_boundary_start_end_of_seq(b);
            } else {
                let q = choose|q: int| p < q < ws.len() && end == #[trigger] ws[q].location.start.0;
                assert(word_at(ws[q], self.file, b, spans(b)[q].0, spans(b)[q].1));
                assert(ws[p as int].location.end.0 <= ws[q].location.start.0);
                if end == 0 {
                    is_char_boundary_start_end_of_seq(b);
                } else {
                    lemma_ascii_boundary(b, end - 1);
                }
            }
        }
        let slice = str_slice(self.source, start, end);
        proof {
            lemma_decode_bytes(slice);
        }
        String::from_str(slice)
    }

    /// Read a command with up to `n` arguments.
    fn read_command(&self, p: usize, n: u8) -> (r: (Atom<'a>, Vec<ParseError>, usize))
        requires
            self.wf(),
            p < self.words@.len(),
        ensures
            atom_matches(r.0, command_step(self.words@, p as int, n as int), self.words@, self.bytes()),
            r.1@ == command_step(self.words@, p as int, n as int).errors,
            r.2 == command_step(self.words@, p as int, n as int).next,
    {
        let ghost ws = self.words@;
        let len = self.words.len();
        let name = self.words[p];
        let mut arguments: Vec<Word<'a>> = Vec::new();
        let mut k: u8 = 0;
        proof {
            lemma_count_args_bounds(ws, p as int, n as int);
        }
        while k < n && self.peek_arg(p + 1 + k as usize)
            invariant
                k <= n,
                ws == self.words@,
                p < ws.len(),
                count_args(ws, p as int, n as int) == k + count_args(ws, p + k, n - k),
                arguments@ == ws.subrange(p + 1, p + 1 + k),
                p + 1 + k <= ws.len(),
                len == ws.len(),
                name == ws[p as int],
            decreases n - k,
        {
            proof {
                lemma_count_args_bounds(ws, p + k + 1, n - k - 1);
            }
            arguments.push(self.words[p + 1 + k as usize]);
            k = k + 1;
            assert(arguments@ =~= ws.subrange(p + 1, p + 1 + k));
        }
        let location = if k > 0 {
            let last = self.words[p + k as usize];
            SourceLocation { file: name.location.file, start: name.location.start, end: last.location.end }
        } else {
            name.location
        };
        let mut errors = Vec::new();
        if k != n {
            errors.push(ParseError { kind: ParseErrorKind::MissingCommandArgs, location });
        }
        (Atom { kind: AtomKind::Command { name, arguments }, location }, errors, p + 1 + k as usize)
    }

    /// Split a word that looks like `/*...*/` into a comment.
    fn word_comment(&self, p: usize) -> (r: Atom<'a>)
        requires
            self.wf(),
            p < self.words@.len(),
            is_comment_word(text(self.words@[p as int])),
            !is_degenerate_comment_word(text(self.words@[p as int])),
        ensures
            atom_matches(
                r,
                simple_step(AtomShape::WordComment { word: p as int }, self.words@, p as int),
                self.words@,
                self.bytes(),
            ),
    {
        let w = self.words[p];
        let v = w.value;
        let len = v.len();
        let ghost t = v.spec_bytes();
        proof {
            assert(word_at(self.words@[p as int], self.file, self.bytes(), spans(self.bytes())[p as int].0, spans(self.bytes())[p as int].1));
            lemma_str_valid(v);
            assert(len >= 4);
            lemma_ascii_boundary(t, 0);
            lemma_ascii_boundary(t, 1);
            lemma_ascii_boundary(t, len - 2);
            lemma_ascii_boundary(t, len - 1);
        }
        let open_text = str_slice(v, 0, 2);
        let inner = str_slice(v, 2, len - 2);
        let close_text = str_slice(v, len - 2, len);
        proof {
            lemma_decode_bytes(inner);
        }
        let start = w.location.start.0;
        let end = w.location.end.0;
        let open = Word {
            value: open_text,
            location: SourceLocation { file: w.location.file, start: w.location.start, end: ByteIndex(start + 2) },
        };
        let close = Word {
            value: close_text,
            location: SourceLocation { file: w.location.file, start: ByteIndex(end - 2), end: w.location.end },
        };
        Atom {
            kind: AtomKind::Comment { open, content: String::from_str(inner), close: Some(close) },
            location: w.location,
        }
    }

    /// Parse the next atom, with the errors found in it.
    pub fn next(&mut self) -> (r: Option<(Atom<'a>, Vec<ParseError>)>)
        requires
            old(self).wf(),
        ensures
            final(self).wf(),
            final(self).words() == old(self).words(),
            final(self).bytes() == old(self).bytes(),
            final(self).file() == old(self).file(),
            old(self).pos() >= old(self).words().len() ==> r is None && final(self).pos() == old(self).pos(),
            old(self).pos() < old(self).words().len() ==> (r matches Some(res) && {
                let step = parse_step(old(self).words(), old(self).pos());
                &&& atom_matches(res.0, step, old(self).words(), old(self).bytes())
                &&& res.1@ == step.errors
                &&& final(self).pos() == step.next
            }),
    {
        if self.pos >= self.words.len() {
            return None;
        }
        let (atom, errors, next) = self.parse_at(self.pos);
        self.pos = next;
        Some((atom, errors))
    }

    /// The atom that starts at word `p`, its errors and the next word's index.
    fn parse_at(&self, p: usize) -> (r: (Atom<'a>, Vec<ParseError>, usize))
        requires
            self.wf(),
            p < self.words@.len(),
        ensures
            atom_matches(r.0, parse_step(self.words@, p as int), self.words@, self.bytes()),
            r.1@ == parse_step(self.words@, p as int).errors,
            r.2 == parse_step(self.words@, p as int).next,
            p < r.2 <= self.words@.len(),
    {
        let ghost ws = self.words@;
        proof {
            lemma_parse_step_advances(ws, p as int);
            reveal(parse_step);
        }
        let n = self.words.len();
        let word = self.words[p];
        let t = word.value.as_bytes();
        let lowv = ascii_lowercase(t);
        let low = lowv.as_slice();
        if t.len() >= 1 && t[0] == 0x3c && t[t.len() - 1] == 0x3e && is_token(t) {
            return (Atom { kind: AtomKind::Section { name: word }, location: word.location }, Vec::new(), p + 1);
        }
        if bytes_eq(low, "{".as_bytes()) {
            return (Atom { kind: AtomKind::OpenBlock { head: word }, location: word.location }, Vec::new(), p + 1);
        }
        if bytes_eq(low, "}".as_bytes()) {
            return (Atom { kind: AtomKind::CloseBlock { head: word }, location: word.location }, Vec::new(), p + 1);
        }
        if bytes_eq(low, "/*".as_bytes()) || (t.len() == 3 && t[0] == 0x2f && t[1] == 0x2a && t[2] == 0x2f) {
            return self.read_comment(p);
        }
        if bytes_eq(low, "if".as_bytes()) {
            return if self.peek_arg(p + 1) {
                let condition = self.words[p + 1];
                (Atom {
                    kind: AtomKind::If { head: word, condition },
                    location: SourceLocation { file: word.location.file, start: word.location.start, end: condition.location.end },
                }, Vec::new(), p + 2)
            } else {
                self.other(p, ParseErrorKind::MissingIfCondition)
            };
        }
        if bytes_eq(low, "elseif".as_bytes()) {
            return if self.peek_arg(p + 1) {
                let condition = self.words[p + 1];
                (Atom {
                    kind: AtomKind::ElseIf { head: word, condition },
                    location: SourceLocation { file: word.location.file, start: word.location.start, end: condition.location.end },
                }, Vec::new(), p + 2)
            } else {
                self.other(p, ParseErrorKind::MissingIfCondition)
            };
        }
        if bytes_eq(low, "else".as_bytes()) {
            return (Atom { kind: AtomKind::Else { head: word }, location: word.location }, Vec::new(), p + 1);
        }
        if bytes_eq(low, "endif".as_bytes()) {
            return (Atom { kind: AtomKind::EndIf { head: word }, location: word.location }, Vec::new(), p + 1);
        }
        if bytes_eq(low, "start_random".as_bytes()) {
            return (Atom { kind: AtomKind::StartRandom { head: word }, location: word.location }, Vec::new(), p + 1);
        }
        if bytes_eq(low, "percent_chance".as_bytes()) {
            return if self.peek_arg(p + 1) {
                let chance = self.words[p + 1];
                (Atom {
                    kind: AtomKind::PercentChance { head: word, chance },
                    location: SourceLocation { file: word.location.file, start: word.location.start, end: chance.location.end },
                }, Vec::new(), p + 2)
            } else {
                self.other(p, ParseErrorKind::MissingPercentChance)
            };
        }
        if bytes_eq(low, "end_random".as_bytes()) {
            return (Atom { kind: AtomKind::EndRandom { head: word }, location: word.location }, Vec::new(), p + 1);
        }
        if bytes_eq(low, "#define".as_bytes()) {
            return if self.peek_arg(p + 1) {
                let name = self.words[p + 1];
                (Atom {
                    kind: AtomKind::Define { head: word, name },
                    location: SourceLocation { file: word.location.file, start: word.location.start, end: name.location.end },
                }, Vec::new(), p + 2)
            } else {
                self.other(p, ParseErrorKind::MissingDefineName)
            };
        }
        if bytes_eq(low, "#undefine".as_bytes()) {
            return if self.peek_arg(p + 1) {
                let name = self.words[p + 1];
                (Atom {
                    kind: AtomKind::Undefine { head: word, name },
                    location: SourceLocation { file: word.location.file, start: word.location.start, end: name.location.end },
                }, Vec::new(), p + 2)
            } else {
                self.other(p, ParseErrorKind::MissingDefineName)
            };
        }
        if bytes_eq(low, "#const".as_bytes()) {
            return self.read_const(p);
        }
        match lookup_token(low) {
            Some(token_type) => {
                return self.read_command(p, token_type.arg_len());
            },
            None => {},
        }
        if low.len() >= 2 && low[0] == 0x2f && low[1] == 0x2a && low[low.len() - 2] == 0x2a
            && low[low.len() - 1] == 0x2f {
            proof {
                assert(lower_bytes(t@) == low@);
                assert(t@[0] == 0x2f && t@[1] == 0x2a);
                assert(t@[t@.len() - 2] == 0x2a && t@[t@.len() - 1] == 0x2f);
            }
            return (self.word_comment(p), Vec::new(), p + 1);
        }
        self.other(p, ParseErrorKind::UnknownWord)
    }

    /// An unrecognised word, with an error.
    fn other(&self, p: usize, kind: ParseErrorKind) -> (r: (Atom<'a>, Vec<ParseError>, usize))
        requires
            p < self.words@.len(),
        ensures
            atom_matches(r.0, other_step(self.words@, p as int, kind), self.words@, self.bytes()),
            r.1@ == other_step(self.words@, p as int, kind).errors,
            r.2 == p + 1,
    {
        let n = self.words.len();
        let word = self.words[p];
        let mut errors = Vec::new();
        errors.push(ParseError { kind, location: word.location });
        (Atom { kind: AtomKind::Other { value: word }, location: word.location }, errors, p + 1)
    }

    /// Read a `#const` statement that starts at word `p`.
    fn read_const(&self, p: usize) -> (r: (Atom<'a>, Vec<ParseError>, usize))
        requires
            p < self.words@.len(),
        ensures
            atom_matches(r.0, const_step(self.words@, p as int), self.words@, self.bytes()),
            r.1@ == const_step(self.words@, p as int).errors,
            r.2 == const_step(self.words@, p as int).next,
    {
        let n = self.words.len();
        let head = self.words[p];
        if !self.peek_arg(p + 1) {
            return self.other(p, ParseErrorKind::MissingConstName);
        }
        let name = self.words[p + 1];
        if p + 2 < n && self.peek_arg(p + 2) {
            let value = self.words[p + 2];
            let atom = Atom {
                kind: AtomKind::Const { head, name, value: Some(value) },
                location: SourceLocation { file: head.location.file, start: head.location.start, end: value.location.end },
            };
            (atom, Vec::new(), p + 3)
        } else {
            let location = SourceLocation { file: head.location.file, start: head.location.start, end: name.location.end };
            let mut errors = Vec::new();
            errors.push(ParseError { kind: ParseErrorKind::MissingConstValue, location });
            (Atom { kind: AtomKind::Const { head, name, value: None }, location }, errors, p + 2)
        }
    }
}

proof fn lemma_count_args_bounds(ws: Seq<Word>, p: int, n: int)
    ensures
        0 <= count_args(ws, p, n),
        n >= 0 ==> count_args(ws, p, n) <= n,
        count_args(ws, p, n) > 0 ==> p + 1 < ws.len() + 1 && spec_peek_arg(ws, p + 1),
        p >= -1 ==> p + 1 + count_args(ws, p, n) <= ws.len() || count_args(ws, p, n) == 0,
        n > 0 && spec_peek_arg(ws, p + 1) ==> count_args(ws, p, n) == 1 + count_args(ws, p + 1, n - 1),
    decreases n,
{
    if n > 0 && spec_peek_arg(ws, p + 1) {
        lemma_count_args_bounds(ws, p + 1, n - 1);
    }
}

proof fn lemma_find_close(ws: Seq<Word>, q: int)
    requires
        0 <= q,
    ensures
        find_close(ws, q) matches Some(c) ==> q <= c < ws.len() && text(ws[c]) == "*/".spec_bytes(),
    decreases ws.len() - q,
{
    if q < ws.len() && text(ws[q]) != "*/".spec_bytes() {
        lemma_find_close(ws, q + 1);
    }
}

/// Each step moves forward, and stays within the words.
#[verifier::spinoff_prover]
#[verifier::rlimit(50)]
pub proof fn lemma_parse_step_advances(ws: Seq<Word>, p: int)
    requires
        0 <= p < ws.len(),
    ensures
        p < parse_step(ws, p).next <= ws.len(),
{
    reveal(parse_step);
    lemma_find_close(ws, p + 1);
    let t = text(ws[p]);
    let low = lower_bytes(t);
    if is_token_name(low) {
        lemma_count_args_bounds(ws, p, spec_arg_len(spec_lookup(low).unwrap().arg_types));
    }
}

/// An atom covers the words from its first to the one before the next atom's first: its
/// location runs from the start of the one to the end of the other.
pub proof fn lemma_parse_step_span(ws: Seq<Word>, p: int)
    requires
        0 <= p < ws.len(),
    ensures
        parse_step(ws, p).location == span(ws, p, parse_step(ws, p).next - 1),
{
    reveal(parse_step);
    lemma_find_close(ws, p + 1);
    let t = text(ws[p]);
    let low = lower_bytes(t);
    if is_token_name(low) {
        lemma_count_args_bounds(ws, p, spec_arg_len(spec_lookup(low).unwrap().arg_types));
    }
}

/// The words that each shape of atom names: its first word, and the words after it in order.
pub proof fn lemma_parse_step_words(ws: Seq<Word>, p: int)
    requires
        0 <= p < ws.len(),
    ensures
        ({
            let step = parse_step(ws, p);
            match step.shape {
                AtomShape::Section { name } => name == p,
                AtomShape::OpenBlock { head } => head == p,
                AtomShape::CloseBlock { head } => head == p,
                AtomShape::Else { head } => head == p,
                AtomShape::EndIf { head } => head == p,
                AtomShape::StartRandom { head } => head == p,
                AtomShape::EndRandom { head } => head == p,
                AtomShape::If { head, condition } => head == p && condition == p + 1 && step.next
                    == p + 2,
                AtomShape::ElseIf { head, condition } => head == p && condition == p + 1
                    && step.next == p + 2,
                AtomShape::PercentChance { head, chance } => head == p && chance == p + 1
                    && step.next == p + 2,
                AtomShape::Command { name, count } => name == p && count >= 0 && step.next == p
                    + 1 + count,
                AtomShape::Comment { open, close } => open == p && match close {
                    Some(q) => p < q && step.next == q + 1,
                    None => step.next == ws.len(),
                },
                AtomShape::WordComment { word } => word == p && text(ws[p]).len() >= 4
                    && is_comment_word(text(ws[p])),
                _ => true,
            }
        }),
{
    reveal(parse_step);
    lemma_find_close(ws, p + 1);
    let t = text(ws[p]);
    let low = lower_bytes(t);
    if is_token_name(low) {
        lemma_count_args_bounds(ws, p, spec_arg_len(spec_lookup(low).unwrap().arg_types));
    }
    if t.len() >= 2 {
        let n = t.len() - 1;
        assert(low.len() == t.len());
        assert(low[0] == lower_byte(t[0]) && low[1] == lower_byte(t[1]));
        assert(low[n - 1] == lower_byte(t[n - 1]) && low[n] == lower_byte(t[n]));
    }
}

/// Can a word with these bytes be an argument to a command?
fn is_arg(t: &[u8]) -> (r: bool)
    ensures
        r == is_arg_text(t@),
{
    if bytes_eq(t, "/*".as_bytes()) || bytes_eq(t, "*/".as_bytes()) || bytes_eq(t, "{".as_bytes())
        || bytes_eq(t, "}".as_bytes()) {
        return false;
    }
    if bytes_eq(t, "if".as_bytes()) || bytes_eq(t, "elseif".as_bytes()) || bytes_eq(
        t,
        "else".as_bytes(),
    ) || bytes_eq(t, "endif".as_bytes()) {
        return false;
    }
    if bytes_eq(t, "start_random".as_bytes()) || bytes_eq(t, "percent_chance".as_bytes())
        || bytes_eq(t, "end_random".as_bytes()) {
        return false;
    }
    if is_token(t) {
        return false;
    }
    if t.len() >= 2 && t[0] == 0x2f && t[1] == 0x2a {
        return false;
    }
    if t.len() >= 2 && t[t.len() - 2] == 0x2a && t[t.len() - 1] == 0x2f {
        return false;
    }
    true
}

/// All atoms of a source, in order.
pub fn parse_atoms<'a>(source: &'a str) -> (r: Vec<Atom<'a>>)
    ensures
        exists|ws: Seq<Word>|
            #![trigger words_of(ws, FileId(0), source.spec_bytes())]
            {
                &&& words_of(ws, FileId(0), source.spec_bytes())
                &&& r@.len() == parse_from(ws, 0).len()
                &&& forall|i: int|
                    0 <= i < r@.len() ==> atom_matches(
                        #[trigger] r@[i],
                        parse_from(ws, 0)[i],
                        ws,
                        source.spec_bytes(),
                    )
            },
{
    let mut parser = Parser::new(FileId(0), source);
    let ghost ws = parser.words();
    let ghost src = source.spec_bytes();
    let ghost mut steps: Seq<ParseStep> = Seq::empty();
    let mut atoms: Vec<Atom<'a>> = Vec::new();
    loop
        invariant
            parser.wf(),
            parser.words() == ws,
            parser.bytes() == src,
            words_of(ws, FileId(0), src),
            0 <= parser.pos() <= ws.len(),
            parse_from(ws, 0) == steps + parse_from(ws, parser.pos()),
            atoms@.len() == steps.len(),
            forall|i: int| 0 <= i < steps.len() ==> atom_matches(#[trigger] atoms@[i], steps[i], ws, src),
        ensures
            parse_from(ws, 0) == steps,
            atoms@.len() == steps.len(),
            forall|i: int| 0 <= i < steps.len() ==> atom_matches(#[trigger] atoms@[i], steps[i], ws, src),
        decreases ws.len() - parser.pos(),
    {
        let ghost pos = parser.pos();
        match parser.next() {
            None => {
                assert(parse_from(ws, pos) =~= Seq::<ParseStep>::empty());
                assert(steps + Seq::<ParseStep>::empty() =~= steps);
                break;
            },
            Some((atom, _errors)) => {
                proof {
                    lemma_parse_step_advances(ws, pos);
                    let step = parse_step(ws, pos);
                    assert(parse_from(ws, pos) == seq![step] + parse_from(ws, step.next));
                    assert(parse_from(ws, 0) =~= steps.push(step) + parse_from(ws, step.next));
                }
                let ghost step = parse_step(ws, pos);
                let ghost old_atoms = atoms@;
                atoms.push(atom);
                proof {
                    assert forall|i: int| 0 <= i < steps.len() + 1 implies atom_matches(
                        #[trigger] atoms@[i],
                        steps.push(step)[i],
                        ws,
                        src,
                    ) by {
                        if i < steps.len() {
                            assert(atoms@[i] == old_atoms[i]);
                        }
                    }
                    steps = steps.push(step);
                }
            },
        }
    }
    assert(words_of(ws, FileId(0), source.spec_bytes()));
    atoms
}

} // verus!
