//! Reads the contents of comments as the game does, which may read words in them as code.
//!
//! Inside `if` and `start_random` statements, older game versions parse comments: a command
//! in a comment that lacks arguments may swallow the comment's end, and the names of
//! constants may be read as tokens.

use crate::diagnostic::{
    diagnostic_view, fix_replace_view, label_view, suggest_view, ByteIndex, Diagnostic, FileId,
    DiagnosticView, Fix, Label, LabelView, Severity, SourceLocation,
};
use crate::lints::concat3;
use crate::parser::{
    lemma_parse_step_advances, parse_step, text, Atom, AtomKind, AtomShape,
    ParseError, ParseErrorKind, ParseStep, Parser,
};
use crate::state::{Compatibility, NestingKind, ParseState};
use crate::wordize::{words_of, Word};
use vstd::prelude::*;
use vstd::string::*;
use vstd::utf8::*;

verus! {

/// Reads the contents of comments as the game does, which may read words in them as code.
pub struct CommentContentsLint {}

/// Does this error say that an atom lacks arguments?
pub open spec fn is_missing_kind(k: ParseErrorKind) -> bool {
    ||| k == ParseErrorKind::MissingConstName
    ||| k == ParseErrorKind::MissingConstValue
    ||| k == ParseErrorKind::MissingDefineName
    ||| k == ParseErrorKind::MissingCommandArgs
    ||| k == ParseErrorKind::MissingIfCondition
    ||| k == ParseErrorKind::MissingPercentChance
}

/// Does one of the errors say that an atom lacks arguments?
pub open spec fn expects_more(errors: Seq<ParseError>) -> bool {
    exists|i: int| 0 <= i < errors.len() && is_missing_kind(#[trigger] errors[i].kind)
}

/// A location moved forward by `offset` bytes (saturating at the largest `usize`).
pub open spec fn shift(loc: SourceLocation, offset: usize) -> SourceLocation {
    SourceLocation {
        file: loc.file,
        start: ByteIndex(loc.start.0.saturating_add(offset)),
        end: ByteIndex(loc.end.0.saturating_add(offset)),
    }
}

/// Is one of the nested contexts of one of the given kinds?
pub open spec fn nested_in(nesting: Seq<(NestingKind, SourceLocation)>, a: NestingKind, b: NestingKind, c: NestingKind) -> bool {
    exists|i: int|
        0 <= i < nesting.len() && ((#[trigger] nesting[i]).0 == a || nesting[i].0 == b
            || nesting[i].0 == c)
}

/// May the game misread the comment's contents: inside an `if` for UserPatch 1.4 and older,
/// or inside a `start_random` for UserPatch 1.5 and older?
pub open spec fn may_misread(state: ParseState) -> bool {
    let n = state.nesting_view();
    let level = state.spec_compatibility().spec_level();
    ||| nested_in(n, NestingKind::If, NestingKind::ElseIf, NestingKind::Else) && level
        <= Compatibility::UserPatch14.spec_level()
    ||| nested_in(n, NestingKind::StartRandom, NestingKind::PercentChance, NestingKind::StartRandom)
        && level <= Compatibility::UserPatch15.spec_level()
}

/// The warning for a constant's name read as a token, if the step is one.
pub open spec fn constant_warning(
    state: ParseState,
    ws: Seq<Word>,
    step: ParseStep,
    offset: usize,
    misread: bool,
) -> Seq<DiagnosticView> {
    match step.shape {
        AtomShape::Other { value } => {
            let v = ws[value];
            if misread && (state.spec_has_define(text(v)) || state.spec_has_const(text(v))) {
                seq![
                    suggest_view(
                        diagnostic_view(
                            Severity::Warning,
                            shift(v.location, offset),
                            "Using constant names in comments inside `start_random` or `if` statements can be dangerous, because the game may interpret them as other tokens instead."@,
                        ),
                        fix_replace_view(
                            v.location,
                            "Add `backticks` around the name to make the parser ignore it"@,
                            "`"@ + v.value@ + "`"@,
                        ),
                    ),
                ]
            } else {
                Seq::empty()
            }
        },
        _ => Seq::empty(),
    }
}

/// Reads the atoms of the comment's words from `p` on. Gives the location of the last atom if
/// it lacks arguments, and the warnings.
pub open spec fn contents_from(
    state: ParseState,
    ws: Seq<Word>,
    offset: usize,
    misread: bool,
    p: int,
    expecting: Option<SourceLocation>,
) -> (Option<SourceLocation>, Seq<DiagnosticView>)
    decreases ws.len() - p,
{
    if p < 0 || p >= ws.len() {
        (expecting, Seq::empty())
    } else {
        let step = parse_step(ws, p);
        if step.next <= p || step.next > ws.len() {
            (expecting, Seq::empty())
        } else if expects_more(step.errors) {
            contents_from(state, ws, offset, misread, step.next, Some(step.location))
        } else {
            let rest = contents_from(state, ws, offset, misread, step.next, None);
            (rest.0, constant_warning(state, ws, step, offset, misread) + rest.1)
        }
    }
}

/// What [`CommentContentsLint`] reports for a comment whose contents have the words `ws`.
pub open spec fn comment_contents_view(state: ParseState, atom: Atom, ws: Seq<Word>) -> Seq<
    DiagnosticView,
> {
    match atom.kind {
        AtomKind::Comment { open, close, .. } => {
            let offset = open.location.end.0;
            let r = contents_from(state, ws, offset, may_misread(state), 0, None);
            r.1 + match (r.0, close) {
                (Some(loc), Some(c)) => seq![
                    label_view(
                        diagnostic_view(
                            Severity::Warning,
                            c.location,
                            "This close comment may be ignored because a previous command is expecting more arguments"@,
                        ),
                        LabelView { location: shift(loc, offset), message: "Command started here"@ },
                    ),
                ],
                _ => Seq::empty(),
            }
        },
        _ => Seq::empty(),
    }
}

/// Is one of the errors about missing arguments?
fn any_missing(errors: &Vec<ParseError>) -> (r: bool)
    ensures
        r == expects_more(errors@),
{
    let mut i: usize = 0;
    while i < errors.len()
        invariant
            i <= errors@.len(),
            forall|j: int| 0 <= j < i ==> !is_missing_kind(#[trigger] errors@[j].kind),
        decreases errors@.len() - i,
    {
        let k = errors[i].kind;
        if k == ParseErrorKind::MissingConstName || k == ParseErrorKind::MissingConstValue || k
            == ParseErrorKind::MissingDefineName || k == ParseErrorKind::MissingCommandArgs || k
            == ParseErrorKind::MissingIfCondition || k == ParseErrorKind::MissingPercentChance {
            return true;
        }
        i = i + 1;
    }
    false
}

/// Whether the game may misread comments in the current nesting.
fn may_trigger_parsing_bug(state: &ParseState) -> (r: bool)
    ensures
        r == may_misread(*state),
{
    let nesting = state.nesting();
    let ghost n = state.nesting_view();
    let mut has_start_random = false;
    let mut has_if = false;
    let mut i: usize = 0;
    while i < nesting.len()
        invariant
            nesting@.map_values(|x: crate::state::Nesting| crate::state::nest_view(x)) == n,
            i <= nesting@.len(),
            has_if == exists|j: int|
                0 <= j < i && ((#[trigger] n[j]).0 == NestingKind::If || n[j].0
                    == NestingKind::ElseIf || n[j].0 == NestingKind::Else),
            has_start_random == exists|j: int|
                0 <= j < i && ((#[trigger] n[j]).0 == NestingKind::StartRandom || n[j].0
                    == NestingKind::PercentChance),
        decreases nesting@.len() - i,
    {
        let k = nesting[i].kind();
        assert(n[i as int].0 == k);
        if k == NestingKind::If || k == NestingKind::ElseIf || k == NestingKind::Else {
            has_if = true;
        }
        if k == NestingKind::StartRandom || k == NestingKind::PercentChance {
            has_start_random = true;
        }
        i = i + 1;
    }
    let level = state.compatibility().level();
    has_if && level <= Compatibility::UserPatch14.level() || has_start_random && level
        <= Compatibility::UserPatch15.level()
}

/// A location moved forward by `offset` bytes.
fn shift_location(loc: SourceLocation, offset: usize) -> (r: SourceLocation)
    ensures
        r == shift(loc, offset),
{
    SourceLocation {
        file: loc.file,
        start: ByteIndex(loc.start.0.saturating_add(offset)),
        end: ByteIndex(loc.end.0.saturating_add(offset)),
    }
}

impl CommentContentsLint {
    /// The lint.
    pub fn new() -> (r: Self) {
        CommentContentsLint {}
    }

    /// The code of this lint's diagnostics.
    pub fn name(&self) -> (r: &'static str)
        ensures
            r@ == "comment-contents"@,
    {
        "comment-contents"
    }

    /// This lint looks inside comments.
    pub fn run_inside_comments(&self) -> (r: bool)
        ensures
            r,
    {
        true
    }

    /// The diagnostics for one atom.
    pub fn lint_atom(&mut self, state: &ParseState, atom: &Atom) -> (r: Vec<Diagnostic>)
        ensures
            match atom.kind {
                AtomKind::Comment { content, .. } => exists|ws: Seq<Word>|
                    words_of(ws, FileId(0), encode_utf8(content@))
                        && r@.map_values(|d: Diagnostic| d@) == comment_contents_view(
                        *state,
                        *atom,
                        ws,
                    ),
                _ => r@.len() == 0,
            },
    {
        if let AtomKind::Comment { open, content, close } = &atom.kind {
            let offset = open.location.end.0;
            let misread = may_trigger_parsing_bug(state);
            let mut parser = Parser::new(state.rms().file_id(), content.as_str());
            let ghost ws = parser.words();
            let mut warnings: Vec<Diagnostic> = Vec::new();
            let mut expecting: Option<SourceLocation> = None;
            assert(warnings@.map_values(|d: Diagnostic| d@) =~= Seq::<DiagnosticView>::empty());
            loop
                invariant
                    parser.wf(),
                    parser.words() == ws,
                    0 <= parser.pos() <= ws.len(),
                    misread == may_misread(*state),
                    contents_from(*state, ws, offset, misread, 0, None) == ({
                        let rest = contents_from(*state, ws, offset, misread, parser.pos(), expecting);
                        (rest.0, warnings@.map_values(|d: Diagnostic| d@) + rest.1)
                    }),
                ensures
                    contents_from(*state, ws, offset, misread, 0, None) == (
                        expecting,
                        warnings@.map_values(|d: Diagnostic| d@),
                    ),
                decreases ws.len() - parser.pos(),
            {
                let ghost pos = parser.pos();
                match parser.next() {
                    None => {
                        assert(warnings@.map_values(|d: Diagnostic| d@) + Seq::<DiagnosticView>::empty()
                            =~= warnings@.map_values(|d: Diagnostic| d@));
                        break;
                    },
                    Some((a, errors)) => {
                        proof {
                            lemma_parse_step_advances(ws, pos);
                        }
                        let ghost step = parse_step(ws, pos);
                        if any_missing(&errors) {
                            expecting = Some(a.location);
                        } else {
                            let ghost before = warnings@.map_values(|d: Diagnostic| d@);
                            if let AtomKind::Other { value } = &a.kind {
                                if misread && (state.has_define(value.value) || state.has_const(
                                    value.value,
                                )) {
                                    let replacement = concat3("`", value.value, "`");
                                    let suggestion = Fix::new(
                                        value.location,
                                        "Add `backticks` around the name to make the parser ignore it",
                                    ).replace(replacement.as_str());
                                    warnings.push(
                                        Diagnostic::warning(
                                            shift_location(value.location, offset),
                                            "Using constant names in comments inside `start_random` or `if` statements can be dangerous, because the game may interpret them as other tokens instead.",
                                        ).suggest(suggestion),
                                    );
                                }
                            }
                            assert(warnings@.map_values(|d: Diagnostic| d@) =~= before
                                + constant_warning(*state, ws, step, offset, misread));
                            expecting = None;
                        }
                    },
                }
            }
            let ghost before = warnings@.map_values(|d: Diagnostic| d@);
            if let (Some(loc), Some(close_comment)) = (expecting, close) {
                warnings.push(
                    Diagnostic::warning(
                        close_comment.location,
                        "This close comment may be ignored because a previous command is expecting more arguments",
                    ).add_label(Label::new(shift_location(loc, offset), "Command started here")),
                );
            }
            assert(warnings@.map_values(|d: Diagnostic| d@) =~= comment_contents_view(
                *state,
                *atom,
                ws,
            ));
            return warnings;
        }
        Vec::new()
    }
}

} // verus!
