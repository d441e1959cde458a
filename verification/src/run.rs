//! Running the lints over a whole map script.

use crate::checker::{
    effective_compatibility, fresh_state, write_atom_rel, Checker, CheckerBuilder, Lint,
};
use crate::diagnostic::{diagnostic_view, with_code_view, Diagnostic, DiagnosticView, FileId, Severity};
use crate::lints::actor_areas_match::ActorAreasMatchLint;
use crate::lints::arg_types::{views, ArgTypesLint};
use crate::lints::attribute_case::AttributeCaseLint;
use crate::lints::command_known;
use crate::lints::comment_contents::CommentContentsLint;
use crate::lints::compatibility::CompatibilityLint;
use crate::lints::include_lint::IncludeLint;
use crate::lints::incorrect_section::IncorrectSectionLint;
use crate::lints::unknown_attribute::UnknownAttributeLint;
use crate::parser::{
    atom_matches, lemma_parse_step_advances, parse_from, parse_step, text,
    Atom, AtomKind, AtomShape, ParseError, ParseErrorKind, ParseStep, Parser,
};
use crate::rms_file::RMSFile;
use crate::state::{Compatibility, ParseState};
use crate::text::lower_bytes;
use crate::tokens::is_token_name;
use crate::wordize::{words_of, Word};
use vstd::prelude::*;
use vstd::std_specs::iter::IteratorSpec;

verus! {

/// The name of an error kind, as `Debug` prints it.
pub open spec fn kind_name(k: ParseErrorKind) -> Seq<char> {
    match k {
        ParseErrorKind::MissingConstName => "MissingConstName"@,
        ParseErrorKind::MissingConstValue => "MissingConstValue"@,
        ParseErrorKind::MissingDefineName => "MissingDefineName"@,
        ParseErrorKind::MissingCommandArgs => "MissingCommandArgs"@,
        ParseErrorKind::MissingIfCondition => "MissingIfCondition"@,
        ParseErrorKind::MissingPercentChance => "MissingPercentChance"@,
        ParseErrorKind::UnclosedComment => "UnclosedComment"@,
        ParseErrorKind::UnknownWord => "UnknownWord"@,
    }
}

/// The name of an error kind, as `Debug` prints it.
pub fn error_kind_name(k: ParseErrorKind) -> (r: &'static str)
    ensures
        r@ == kind_name(k),
{
    match k {
        ParseErrorKind::MissingConstName => "MissingConstName",
        ParseErrorKind::MissingConstValue => "MissingConstValue",
        ParseErrorKind::MissingDefineName => "MissingDefineName",
        ParseErrorKind::MissingCommandArgs => "MissingCommandArgs",
        ParseErrorKind::MissingIfCondition => "MissingIfCondition",
        ParseErrorKind::MissingPercentChance => "MissingPercentChance",
        ParseErrorKind::UnclosedComment => "UnclosedComment",
        ParseErrorKind::UnknownWord => "UnknownWord",
    }
}

/// The diagnostics for the first `n` parse errors. Missing command arguments are left out: the
/// arg-types lint reports them.
pub open spec fn error_diagnostics(errors: Seq<ParseError>, n: int) -> Seq<DiagnosticView>
    decreases n,
{
    if n <= 0 {
        Seq::empty()
    } else {
        let e = errors[n - 1];
        error_diagnostics(errors, n - 1) + if e.kind == ParseErrorKind::MissingCommandArgs {
            Seq::empty()
        } else {
            seq![
                with_code_view(
                    diagnostic_view(Severity::ParseError, e.location, kind_name(e.kind)),
                    "parse"@,
                ),
            ]
        }
    }
}

/// The diagnostics of the first `n` atoms: for each, what the checker wrote, then its parse
/// errors.
pub open spec fn run_output(
    outs: Seq<Seq<DiagnosticView>>,
    steps: Seq<ParseStep>,
    n: int,
) -> Seq<DiagnosticView>
    decreases n,
{
    if n <= 0 {
        Seq::empty()
    } else {
        run_output(outs, steps, n - 1) + outs[n - 1] + error_diagnostics(
            steps[n - 1].errors,
            steps[n - 1].errors.len() as int,
        )
    }
}

/// A run of the checker over the atoms `steps` of the words `ws` of the source `src`: atom `i`
/// is the one step `i` describes, and writing it took the lints and state from `lints[i]` and
/// `states[i]` to `lints[i + 1]` and `states[i + 1]`, with the diagnostics `outs[i]`.
#[verifier::opaque]
pub open spec fn run_trace(
    steps: Seq<ParseStep>,
    ws: Seq<Word>,
    src: Seq<u8>,
    atoms: Seq<Atom>,
    lints: Seq<Seq<Lint>>,
    states: Seq<ParseState>,
    outs: Seq<Seq<DiagnosticView>>,
) -> bool {
    &&& atoms.len() == steps.len()
    &&& outs.len() == steps.len()
    &&& lints.len() == steps.len() + 1
    &&& states.len() == steps.len() + 1
    &&& forall|i: int|
        0 <= i < steps.len() ==> atom_matches(#[trigger] atoms[i], steps[i], ws, src)
            && write_atom_rel(lints[i], lints[i + 1], states[i], states[i + 1], atoms[i], outs[i])
}

/// The lints that [`RMSCheck::default`] runs, in order.
pub open spec fn default_lints(l: Seq<Lint>) -> bool {
    &&& l.len() == 7
    &&& l[0] is ArgTypes
    &&& l[1] is AttributeCase
    &&& l[2] is CommentContents
    &&& l[3] matches Lint::Compatibility(c) && c.conditions().len() == 0
    &&& l[4] is Include
    &&& l[5] is IncorrectSection
    &&& l[6] is UnknownAttribute
}

/// The result of a lint run.
pub struct RMSCheckResult<'source> {
    diagnostics: Vec<Diagnostic>,
    rms: &'source RMSFile,
}

impl<'source> RMSCheckResult<'source> {
    /// The diagnostics, in the order they were found.
    pub closed spec fn spec_diagnostics(&self) -> Seq<Diagnostic> {
        self.diagnostics@
    }

    /// The map that was checked.
    pub closed spec fn spec_rms(&self) -> &'source RMSFile {
        self.rms
    }

    /// Get the file ID for a given file name.
    pub fn file_id(&self, name: &str) -> (r: Option<FileId>)
        requires
            self.spec_rms().wf(),
        ensures
            match r {
                Some(id) => id.0 < self.spec_rms().files().len() && self.spec_rms().files()[id.0 as int].spec_name() == name@,
                None => forall|j: int|
                    0 <= j < self.spec_rms().files().len() ==> #[trigger] self.spec_rms().files()[j].spec_name() != name@,
            },
    {
        self.rms.find_file_id(name)
    }

    /// Get a file's source code by the file name.
    pub fn source(&self, name: &str) -> (r: Option<&str>)
        requires
            self.spec_rms().wf(),
        ensures
            match r {
                Some(s) => exists|i: int|
                    0 <= i < self.spec_rms().files().len() && self.spec_rms().files()[i].spec_name() == name@
                        && s@ == #[trigger] self.spec_rms().files()[i].spec_source(),
                None => forall|j: int|
                    0 <= j < self.spec_rms().files().len() ==> #[trigger] self.spec_rms().files()[j].spec_name() != name@,
            },
    {
        self.rms.find_file_source(name)
    }

    /// The source of the main script.
    pub fn main_source(&self) -> (r: &str)
        requires
            self.spec_rms().wf(),
        ensures
            r@ == self.spec_rms().files()[0].spec_source(),
    {
        self.rms.main_source()
    }

    /// Were there any warnings?
    pub fn has_warnings(&self) -> (r: bool)
        ensures
            r == (self.spec_diagnostics().len() > 0),
    {
        self.diagnostics.len() > 0
    }

    /// Iterate over the diagnostics.
    pub fn iter(&self) -> (r: std::slice::Iter<'_, Diagnostic>)
        ensures
            IteratorSpec::remaining(&r) == self.spec_diagnostics().map_values(|d: Diagnostic| &d),
    {
        broadcast use vstd::std_specs::slice::axiom_spec_slice_iter;

        let r = self.diagnostics.iter();
        assert(IteratorSpec::remaining(&r) =~= self.spec_diagnostics().map_values(|d: Diagnostic| &d));
        r
    }

    /// The diagnostics, in the order they were found.
    pub fn diagnostics(&self) -> (r: &[Diagnostic])
        ensures
            r@ == self.spec_diagnostics(),
    {
        self.diagnostics.as_slice()
    }

    /// The diagnostics, by value.
    pub fn into_diagnostics(self) -> (r: Vec<Diagnostic>)
        ensures
            r@ == self.spec_diagnostics(),
    {
        self.diagnostics
    }
}

/// Runs lints over map scripts.
pub struct RMSCheck {
    checker: CheckerBuilder,
}

impl Default for RMSCheck {
    /// A check with the lints for arguments, attribute case, comment contents, compatibility,
    /// `#include`, sections and unknown attributes, for Conquerors.
    fn default() -> (r: RMSCheck)
        ensures
            default_lints(r.spec_lints()),
            r.spec_compatibility() == Compatibility::Conquerors,
    {
        RMSCheck::new().with_lint(Lint::ArgTypes(ArgTypesLint::new())).with_lint(
            Lint::AttributeCase(AttributeCaseLint::new()),
        ).with_lint(Lint::CommentContents(CommentContentsLint::new())).with_lint(
            Lint::Compatibility(CompatibilityLint::new()),
        ).with_lint(Lint::Include(IncludeLint::new())).with_lint(
            Lint::IncorrectSection(IncorrectSectionLint::new()),
        ).with_lint(Lint::UnknownAttribute(UnknownAttributeLint::new()))
    }
}

impl RMSCheck {
    /// The lints, in the order they run.
    pub closed spec fn spec_lints(&self) -> Seq<Lint> {
        self.checker.spec_lints()
    }

    /// The compatibility level asked for.
    pub closed spec fn spec_compatibility(&self) -> Compatibility {
        self.checker.spec_compatibility()
    }

    /// Initialize an RMS checker, with no lints, for Conquerors.
    pub fn new() -> (r: Self)
        ensures
            r.spec_lints().len() == 0,
            r.spec_compatibility() == Compatibility::Conquerors,
    {
        RMSCheck { checker: Checker::builder() }
    }

    /// Configure the default compatibility for the script.
    ///
    /// The compatibility setting can be overridden by scripts using `Compatibility: ` comments.
    pub fn compatibility(self, compatibility: Compatibility) -> (r: Self)
        ensures
            r.spec_lints() == self.spec_lints(),
            r.spec_compatibility() == compatibility,
    {
        RMSCheck { checker: self.checker.compatibility(compatibility) }
    }

    /// Add a lint rule, which runs after the others.
    pub fn with_lint(self, lint: Lint) -> (r: Self)
        ensures
            r.spec_lints() == self.spec_lints().push(lint),
            r.spec_compatibility() == self.spec_compatibility(),
    {
        RMSCheck { checker: self.checker.with_lint(lint) }
    }

    /// Run the lints over the main script of the map and get the result: for each atom, in
    /// order, what the lints and the state's nesting report, then the atom's parse errors.
    #[verifier::spinoff_prover]
    #[verifier::rlimit(40)]
    pub fn check<'source>(self, rms: &'source RMSFile) -> (r: RMSCheckResult<'source>)
        requires
            rms.wf(),
        ensures
            r.spec_rms() == rms,
            exists|
                ws: Seq<Word>,
                atoms: Seq<Atom>,
                lints: Seq<Seq<Lint>>,
                states: Seq<ParseState>,
                outs: Seq<Seq<DiagnosticView>>,
            |
                #![trigger run_trace(parse_from(ws, 0), ws, rms.files()[0].spec_bytes(), atoms, lints, states, outs)]
                {
                    let src = rms.files()[0].spec_bytes();
                    let steps = parse_from(ws, 0);
                    &&& words_of(ws, FileId(0), src)
                    &&& run_trace(steps, ws, src, atoms, lints, states, outs)
                    &&& lints[0] == self.spec_lints()
                    &&& fresh_state(
                        states[0],
                        rms,
                        effective_compatibility(rms, self.spec_compatibility()),
                    )
                    &&& views(r.spec_diagnostics()) == run_output(outs, steps, steps.len() as int)
                },
    {
        let ghost initial_lints = self.spec_lints();
        let mut checker = self.checker.build(rms);
        let mut diagnostics: Vec<Diagnostic> = Vec::new();
        let mut parser = Parser::new(rms.file_id(), rms.main_source());
        let ghost src = rms.files()[0].spec_bytes();
        let ghost ws = parser.words();
        let ghost all_steps = parse_from(ws, 0);
        let ghost mut steps: Seq<ParseStep> = Seq::empty();
        let ghost mut atoms: Seq<Atom> = Seq::empty();
        let ghost mut lints: Seq<Seq<Lint>> = seq![checker.spec_lints()];
        let ghost mut states: Seq<ParseState> = seq![checker.spec_state()];
        let ghost mut outs: Seq<Seq<DiagnosticView>> = Seq::empty();
        assert(views(diagnostics@) =~= run_output(outs, steps, 0));
        assert(run_trace(steps, ws, src, atoms, lints, states, outs)) by {
            reveal(run_trace);
        }
        loop
            invariant
                parser.wf(),
                parser.words() == ws,
                parser.bytes() == src,
                parser.file() == FileId(0),
                checker.wf(),
                0 <= parser.pos() <= ws.len(),
                all_steps == steps + parse_from(ws, parser.pos()),
                run_trace(steps, ws, src, atoms, lints, states, outs),
                lints.last() == checker.spec_lints(),
                states.last() == checker.spec_state(),
                lints.len() == steps.len() + 1,
                states.len() == steps.len() + 1,
                outs.len() == steps.len(),
                lints[0] == initial_lints,
                fresh_state(states[0], rms, effective_compatibility(rms, self.spec_compatibility())),
                words_of(ws, FileId(0), src),
                all_steps == parse_from(ws, 0),
                views(diagnostics@) == run_output(outs, steps, steps.len() as int),
            ensures
                all_steps == steps,
                run_trace(steps, ws, src, atoms, lints, states, outs),
                views(diagnostics@) == run_output(outs, steps, steps.len() as int),
            decreases ws.len() - parser.pos(),
        {
            let ghost pos = parser.pos();
            match parser.next() {
                None => {
                    assert(parse_from(ws, pos) =~= Seq::<ParseStep>::empty());
                    assert(steps + Seq::<ParseStep>::empty() =~= steps);
                    break;
                },
                Some((atom, errors)) => {
                    proof {
                        lemma_parse_step_advances(ws, pos);
                        lemma_parsed_command_known(atom, ws, pos, src);
                    }
                    let ghost step = parse_step(ws, pos);
                    let ghost lints_before = checker.spec_lints();
                    let ghost state_before = checker.spec_state();
                    let out = checker.write_atom(&atom);
                    let ghost o = views(out@);
                    let mut out = out;
                    let ghost prev = views(diagnostics@);
                    diagnostics.append(&mut out);
                    assert(views(diagnostics@) =~= prev + o);
                    push_parse_errors(&mut diagnostics, &errors);
                    proof {
                        lemma_trace_extend(
                            all_steps, ws, src, pos, steps, atoms, lints, states, outs, atom,
                            checker.spec_lints(), checker.spec_state(), o,
                        );
                        steps = steps.push(step);
                        atoms = atoms.push(atom);
                        lints = lints.push(checker.spec_lints());
                        states = states.push(checker.spec_state());
                        outs = outs.push(o);
                        assert(views(diagnostics@) =~= run_output(outs, steps, steps.len() as int));
                    }
                },
            }
        }
        let r = RMSCheckResult { diagnostics, rms };
        assert(run_trace(parse_from(ws, 0), ws, src, atoms, lints, states, outs));
        r
    }
}

/// Adds the parse errors' diagnostics.
fn push_parse_errors(diagnostics: &mut Vec<Diagnostic>, errors: &Vec<ParseError>)
    ensures
        views(final(diagnostics)@) == views(old(diagnostics)@) + error_diagnostics(
            errors@,
            errors@.len() as int,
        ),
{
    let ghost before = views(diagnostics@);
    let mut i: usize = 0;
    while i < errors.len()
        invariant
            i <= errors@.len(),
            views(diagnostics@) == before + error_diagnostics(errors@, i as int),
        decreases errors@.len() - i,
    {
        let w = errors[i];
        let ghost prev = views(diagnostics@);
        if w.kind != ParseErrorKind::MissingCommandArgs {
            // Missing command arguments are handled by the arg-types lint.
            diagnostics.push(
                Diagnostic::parse_error(w.location, error_kind_name(w.kind)).with_code("parse"),
            );
        }
        assert(errors@[i as int] == w);
        assert(views(diagnostics@) =~= prev + (if w.kind == ParseErrorKind::MissingCommandArgs {
            Seq::empty()
        } else {
            seq![
                with_code_view(
                    diagnostic_view(Severity::ParseError, w.location, kind_name(w.kind)),
                    "parse"@,
                ),
            ]
        }));
        assert(views(diagnostics@) =~= before + error_diagnostics(errors@, i + 1));
        i = i + 1;
    }
}

/// One more atom extends a run.
proof fn lemma_trace_extend(
    all_steps: Seq<ParseStep>,
    ws: Seq<Word>,
    src: Seq<u8>,
    pos: int,
    steps: Seq<ParseStep>,
    atoms: Seq<Atom>,
    lints: Seq<Seq<Lint>>,
    states: Seq<ParseState>,
    outs: Seq<Seq<DiagnosticView>>,
    atom: Atom,
    l1: Seq<Lint>,
    s1: ParseState,
    o: Seq<DiagnosticView>,
)
    requires
        0 <= pos < ws.len(),
        pos < parse_step(ws, pos).next <= ws.len(),
        all_steps == steps + parse_from(ws, pos),
        run_trace(steps, ws, src, atoms, lints, states, outs),
        atom_matches(atom, parse_step(ws, pos), ws, src),
        write_atom_rel(lints.last(), l1, states.last(), s1, atom, o),
    ensures
        all_steps == steps.push(parse_step(ws, pos)) + parse_from(ws, parse_step(ws, pos).next),
        run_trace(
            steps.push(parse_step(ws, pos)),
            ws,
            src,
            atoms.push(atom),
            lints.push(l1),
            states.push(s1),
            outs.push(o),
        ),
        run_output(outs.push(o), steps.push(parse_step(ws, pos)), steps.len() as int)
            == run_output(outs, steps, steps.len() as int),
{
    reveal(run_trace);
    let step = parse_step(ws, pos);
    let n = steps.len() as int;
    let steps2 = steps.push(step);
    let atoms2 = atoms.push(atom);
    let lints2 = lints.push(l1);
    let states2 = states.push(s1);
    let outs2 = outs.push(o);
    assert(parse_from(ws, pos) == seq![step] + parse_from(ws, step.next));
    assert(all_steps =~= steps2 + parse_from(ws, step.next));
    assert forall|k: int| 0 <= k < steps2.len() implies atom_matches(
        #[trigger] atoms2[k],
        steps2[k],
        ws,
        src,
    ) && write_atom_rel(lints2[k], lints2[k + 1], states2[k], states2[k + 1], atoms2[k], outs2[k]) by {
        if k < n {
            assert(atoms2[k] == atoms[k]);
            assert(atom_matches(atoms[k], steps[k], ws, src));
            assert(write_atom_rel(lints[k], lints[k + 1], states[k], states[k + 1], atoms[k], outs[k]));
        }
    }
    lemma_run_output_prefix(outs, steps, o, step, n);
}

/// The run output of the first `n` atoms is unchanged by adding another.
proof fn lemma_run_output_prefix(
    outs: Seq<Seq<DiagnosticView>>,
    steps: Seq<ParseStep>,
    o: Seq<DiagnosticView>,
    step: ParseStep,
    n: int,
)
    requires
        0 <= n <= outs.len(),
        n <= steps.len(),
    ensures
        run_output(outs.push(o), steps.push(step), n) == run_output(outs, steps, n),
    decreases n,
{
    if n > 0 {
        lemma_run_output_prefix(outs, steps, o, step, n - 1);
        assert(outs.push(o)[n - 1] == outs[n - 1]);
        assert(steps.push(step)[n - 1] == steps[n - 1]);
    }
}

/// An atom that the parser makes is a command only if its name, in lower case, is a token.
pub proof fn lemma_parsed_command_known(atom: Atom, ws: Seq<Word>, p: int, src: Seq<u8>)
    requires
        0 <= p < ws.len(),
        atom_matches(atom, parse_step(ws, p), ws, src),
    ensures
        command_known(atom),
{
    reveal(parse_step);
    let step = parse_step(ws, p);
    if let AtomShape::Command { name, .. } = step.shape {
        assert(name == p);
        assert(is_token_name(lower_bytes(text(ws[p]))));
    }
}

} // verus!
