//! The checker that runs lints and keeps track of warnings.

use crate::diagnostic::{with_code_view, Diagnostic, DiagnosticView};
use crate::lints::actor_areas_match::{actor_areas_step, ActorAreasMatchLint};
use crate::lints::arg_types::{arg_types_view, opt_seq, views, ArgTypesLint};
use crate::lints::attribute_case::{attribute_case_view, AttributeCaseLint};
use crate::lints::comment_contents::{comment_contents_view, CommentContentsLint};
use crate::lints::compatibility::{compatibility_warnings, conditions_after, CompatibilityLint};
use crate::lints::command_known;
use crate::lints::dead_branch_comment::{dead_branch_view, DeadBranchCommentLint};
use crate::lints::include_lint::{include_view, IncludeLint};
use crate::lints::incorrect_section::{incorrect_section_view, IncorrectSectionLint};
use crate::lints::unknown_attribute::{unknown_attribute_view, UnknownAttributeLint};
use crate::parser::{Atom, AtomKind};
use crate::diagnostic::FileId;
use crate::rms_file::RMSFile;
use crate::state::{nesting_step, same_but_nesting, update_post, Compatibility, ParseState};
use crate::wordize::{words_of, Word};
use vstd::prelude::*;
use vstd::utf8::*;

verus! {

/// A lint rule, one of those that this crate provides.
pub enum Lint {
    ActorAreasMatch(ActorAreasMatchLint),
    ArgTypes(ArgTypesLint),
    AttributeCase(AttributeCaseLint),
    CommentContents(CommentContentsLint),
    Compatibility(CompatibilityLint),
    DeadBranchComment(DeadBranchCommentLint),
    Include(IncludeLint),
    IncorrectSection(IncorrectSectionLint),
    UnknownAttribute(UnknownAttributeLint),
}

/// The code that a lint gives its diagnostics.
pub open spec fn lint_name(l: Lint) -> Seq<char> {
    match l {
        Lint::ActorAreasMatch(_) => "actor-areas-match"@,
        Lint::ArgTypes(_) => "arg-types"@,
        Lint::AttributeCase(_) => "attribute-case"@,
        Lint::CommentContents(_) => "comment-contents"@,
        Lint::Compatibility(_) => "compatibility"@,
        Lint::DeadBranchComment(_) => "dead-comment"@,
        Lint::Include(_) => "include"@,
        Lint::IncorrectSection(_) => "incorrect-section"@,
        Lint::UnknownAttribute(_) => "unknown-attribute"@,
    }
}

/// Running the lint `before` on `atom` in `state` gave the diagnostics `out` and left the lint
/// as `after`. Only the actor-areas and compatibility lints keep state of their own.
pub open spec fn lint_output(
    before: Lint,
    after: Lint,
    state: ParseState,
    atom: Atom,
    out: Seq<DiagnosticView>,
) -> bool {
    match before {
        Lint::ActorAreasMatch(a) => after matches Lint::ActorAreasMatch(b) && (b.areas(), out)
            == actor_areas_step(a.areas(), atom),
        Lint::ArgTypes(_) => after matches Lint::ArgTypes(_) && out == arg_types_view(state, atom),
        Lint::AttributeCase(_) => after matches Lint::AttributeCase(_) && out
            == attribute_case_view(atom),
        Lint::CommentContents(_) => after matches Lint::CommentContents(_) && match atom.kind {
            AtomKind::Comment { content, .. } => exists|ws: Seq<Word>|
                words_of(ws, FileId(0), encode_utf8(content@)) && out == comment_contents_view(
                    state,
                    atom,
                    ws,
                ),
            _ => out.len() == 0,
        },
        Lint::Compatibility(a) => after matches Lint::Compatibility(b) && b.conditions()
            == conditions_after(a.conditions(), atom) && out == compatibility_warnings(
            state.spec_compatibility(),
            a.conditions(),
            atom,
        ),
        Lint::DeadBranchComment(_) => after matches Lint::DeadBranchComment(_) && out
            == dead_branch_view(state.nesting_view(), atom),
        Lint::Include(_) => after matches Lint::Include(_) && out == include_view(atom),
        Lint::IncorrectSection(_) => after matches Lint::IncorrectSection(_) && out
            == incorrect_section_view(state.spec_section(), atom),
        Lint::UnknownAttribute(_) => after matches Lint::UnknownAttribute(_) && out
            == unknown_attribute_view(atom),
    }
}

impl Lint {
    /// The code that this lint gives its diagnostics.
    pub fn name(&self) -> (r: &'static str)
        ensures
            r@ == lint_name(*self),
    {
        match self {
            Lint::ActorAreasMatch(l) => l.name(),
            Lint::ArgTypes(l) => l.name(),
            Lint::AttributeCase(l) => l.name(),
            Lint::CommentContents(l) => l.name(),
            Lint::Compatibility(l) => l.name(),
            Lint::DeadBranchComment(l) => l.name(),
            Lint::Include(l) => l.name(),
            Lint::IncorrectSection(l) => l.name(),
            Lint::UnknownAttribute(l) => l.name(),
        }
    }

    /// Whether this lint looks into the contents of comments.
    pub fn run_inside_comments(&self) -> (r: bool)
        ensures
            r == (*self is CommentContents),
    {
        match self {
            Lint::CommentContents(l) => l.run_inside_comments(),
            _ => false,
        }
    }

    /// The diagnostics of this lint for one atom.
    pub fn lint_atom(&mut self, state: &ParseState, atom: &Atom) -> (r: Vec<Diagnostic>)
        requires
            command_known(*atom),
        ensures
            lint_output(*old(self), *final(self), *state, *atom, views(r@)),
    {
        match self {
            Lint::ActorAreasMatch(l) => l.lint_atom(state, atom),
            Lint::ArgTypes(l) => l.lint_atom(state, atom),
            Lint::AttributeCase(l) => l.lint_atom(state, atom),
            Lint::CommentContents(l) => l.lint_atom(state, atom),
            Lint::Compatibility(l) => l.lint_atom(state, atom),
            Lint::DeadBranchComment(l) => l.lint_atom(state, atom),
            Lint::Include(l) => l.lint_atom(state, atom),
            Lint::IncorrectSection(l) => l.lint_atom(state, atom),
            Lint::UnknownAttribute(l) => l.lint_atom(state, atom),
        }
    }
}

/// The diagnostics of one lint, with the lint's code attached to each.
pub open spec fn coded(out: Seq<DiagnosticView>, code: Seq<char>) -> Seq<DiagnosticView> {
    out.map_values(|d: DiagnosticView| with_code_view(d, code))
}

/// The coded diagnostics of the first `n` lints, in the order of the lints.
pub open spec fn joined(outs: Seq<Seq<DiagnosticView>>, lints: Seq<Lint>, n: int) -> Seq<
    DiagnosticView,
>
    decreases n,
{
    if n <= 0 {
        Seq::empty()
    } else {
        joined(outs, lints, n - 1) + coded(outs[n - 1], lint_name(lints[n - 1]))
    }
}

proof fn lemma_joined_prefix(outs: Seq<Seq<DiagnosticView>>, x: Seq<DiagnosticView>, lints: Seq<Lint>, n: int)
    requires
        n <= outs.len(),
    ensures
        joined(outs.push(x), lints, n) == joined(outs, lints, n),
    decreases n,
{
    if n > 0 {
        lemma_joined_prefix(outs, x, lints, n - 1);
        assert(outs.push(x)[n - 1] == outs[n - 1]);
    }
}

/// Writing `atom` to a checker with the lints `l0` and the state `s0` gave the diagnostics
/// `out` and left the lints `l1` and the state `s1`: each lint, in order, reported on the atom
/// against the state before it; then the state took in the atom, and then its nesting, whose
/// warning, if any, comes last and has no code.
#[verifier::opaque]
pub open spec fn write_atom_rel(
    l0: Seq<Lint>,
    l1: Seq<Lint>,
    s0: ParseState,
    s1: ParseState,
    atom: Atom,
    out: Seq<DiagnosticView>,
) -> bool {
    exists|outs: Seq<Seq<DiagnosticView>>, mid: ParseState|
        #![trigger joined(outs, l0, l0.len() as int), update_post(s0, mid, atom)]
        {
            &&& outs.len() == l0.len()
            &&& l1.len() == l0.len()
            &&& forall|i: int|
                0 <= i < l0.len() ==> lint_output(l0[i], #[trigger] l1[i], s0, atom, outs[i])
            &&& mid.wf()
            &&& update_post(s0, mid, atom)
            &&& same_but_nesting(mid, s1)
            &&& s1.nesting_view() == nesting_step(mid.nesting_view(), atom).0
            &&& out == joined(outs, l0, l0.len() as int) + opt_seq(
                nesting_step(mid.nesting_view(), atom).1,
            )
        }
}

/// The same diagnostics, each with the code `code`.
fn add_codes(v: Vec<Diagnostic>, code: &str) -> (r: Vec<Diagnostic>)
    ensures
        views(r@) == coded(views(v@), code@),
{
    let ghost orig = v@;
    let mut v = v;
    let mut r: Vec<Diagnostic> = Vec::new();
    while v.len() > 0
        invariant
            r@.len() + v@.len() == orig.len(),
            v@ == orig.skip(r@.len() as int),
            views(r@) == coded(views(orig.take(r@.len() as int)), code@),
        decreases v@.len(),
    {
        let ghost k = r@.len() as int;
        let d = v.remove(0);
        assert(d == orig[k]);
        let ghost before = views(r@);
        r.push(d.with_code(code));
        assert(orig.skip(k).remove(0) =~= orig.skip(k + 1));
        assert(views(r@) =~= before.push(with_code_view(d@, code@)));
        assert(views(orig.take(k + 1)) =~= views(orig.take(k)).push(d@));
        assert(coded(views(orig.take(k + 1)), code@) =~= coded(views(orig.take(k)), code@).push(
            with_code_view(d@, code@),
        ));
    }
    assert(orig.take(orig.len() as int) =~= orig);
    r
}

/// Collects the lints to run and the compatibility level, and builds a [`Checker`].
pub struct CheckerBuilder {
    lints: Vec<Lint>,
    compatibility: Compatibility,
}

/// The compatibility level a checker uses for a map: a ZR@ map gets at least UserPatch 1.5.
pub open spec fn effective_compatibility(rms: &RMSFile, c: Compatibility) -> Compatibility {
    if crate::rms_file::is_zip_rms_name(rms.files()[0].spec_name_bytes()) && c.spec_level()
        < Compatibility::UserPatch15.spec_level() {
        Compatibility::UserPatch15
    } else {
        c
    }
}

/// A state fresh for `rms` at the compatibility level `c`.
pub open spec fn fresh_state(s: ParseState, rms: &RMSFile, c: Compatibility) -> bool {
    &&& s.wf()
    &&& s.spec_rms() == rms
    &&& s.spec_compatibility() == c
    &&& !s.spec_is_builtin_map()
    &&& s.nesting_view().len() == 0
    &&& s.spec_section() is None
    &&& s.spec_consts().len() == 0
    &&& s.spec_defines().len() == 0
    &&& s.option_define_names().len() == 0
    &&& !s.headers_done()
}

impl Default for CheckerBuilder {
    fn default() -> (r: Self)
        ensures
            r.spec_lints().len() == 0,
            r.spec_compatibility() == Compatibility::Conquerors,
    {
        CheckerBuilder { lints: Vec::new(), compatibility: Compatibility::Conquerors }
    }
}

impl CheckerBuilder {
    /// The lints, in the order they run.
    pub closed spec fn spec_lints(&self) -> Seq<Lint> {
        self.lints@
    }

    /// The compatibility level asked for.
    pub closed spec fn spec_compatibility(&self) -> Compatibility {
        self.compatibility
    }

    /// A checker for `rms` with these lints.
    pub fn build<'source>(self, rms: &'source RMSFile) -> (r: Checker<'source>)
        requires
            rms.wf(),
        ensures
            r.wf(),
            r.spec_lints() == self.spec_lints(),
            fresh_state(
                r.spec_state(),
                rms,
                effective_compatibility(rms, self.spec_compatibility()),
            ),
    {
        // Default to UP 1.5 if it's a ZR@ map
        let compatibility = if rms.is_zip_rms() && self.compatibility.level()
            < Compatibility::UserPatch15.level() {
            Compatibility::UserPatch15
        } else {
            self.compatibility
        };
        let state = ParseState::new(rms, compatibility);
        Checker { lints: self.lints, state }
    }

    /// The same builder with one more lint, which runs after the others.
    pub fn with_lint(self, lint: Lint) -> (r: Self)
        ensures
            r.spec_lints() == self.spec_lints().push(lint),
            r.spec_compatibility() == self.spec_compatibility(),
    {
        let mut b = self;
        b.lints.push(lint);
        b
    }

    /// The same builder with another compatibility level.
    pub fn compatibility(self, compatibility: Compatibility) -> (r: Self)
        ensures
            r.spec_lints() == self.spec_lints(),
            r.spec_compatibility() == compatibility,
    {
        CheckerBuilder { compatibility, ..self }
    }
}

/// Runs lints on atoms, and keeps the state of the script read so far.
pub struct Checker<'a> {
    lints: Vec<Lint>,
    state: ParseState<'a>,
}

impl<'a> Checker<'a> {
    /// The lints, in the order they run.
    pub closed spec fn spec_lints(&self) -> Seq<Lint> {
        self.lints@
    }

    /// The state of the script read so far.
    pub closed spec fn spec_state(&self) -> ParseState<'a> {
        self.state
    }

    /// The state is well formed.
    pub open spec fn wf(&self) -> bool {
        self.spec_state().wf()
    }

    /// A builder with no lints, for Conquerors.
    pub fn builder() -> (r: CheckerBuilder)
        ensures
            r.spec_lints().len() == 0,
            r.spec_compatibility() == Compatibility::Conquerors,
    {
        CheckerBuilder::default()
    }

    /// The state of the script read so far.
    pub fn state(&self) -> (r: &ParseState<'a>)
        ensures
            *r == self.spec_state(),
    {
        &self.state
    }

    /// Runs every lint on the atom, then updates the state with it.
    pub fn write_atom(&mut self, atom: &Atom<'a>) -> (r: Vec<Diagnostic>)
        requires
            old(self).wf(),
            command_known(*atom),
        ensures
            final(self).wf(),
            write_atom_rel(
                old(self).spec_lints(),
                final(self).spec_lints(),
                old(self).spec_state(),
                final(self).spec_state(),
                *atom,
                views(r@),
            ),
    {
        let mut pending: Vec<Lint> = Vec::new();
        std::mem::swap(&mut pending, &mut self.lints);
        let ghost l0 = pending@;
        let ghost s0 = self.state;
        let mut done: Vec<Lint> = Vec::new();
        let mut warnings: Vec<Diagnostic> = Vec::new();
        let ghost mut outs: Seq<Seq<DiagnosticView>> = Seq::empty();
        assert(views(warnings@) =~= joined(outs, l0, 0));
        while pending.len() > 0
            invariant
                done@.len() + pending@.len() == l0.len(),
                pending@ == l0.skip(done@.len() as int),
                outs.len() == done@.len(),
                self.state == s0,
                command_known(*atom),
                forall|i: int|
                    0 <= i < done@.len() ==> lint_output(
                        l0[i],
                        #[trigger] done@[i],
                        s0,
                        *atom,
                        outs[i],
                    ),
                views(warnings@) == joined(outs, l0, done@.len() as int),
            decreases pending@.len(),
        {
            let ghost k = done@.len() as int;
            let mut l = pending.remove(0);
            assert(l == l0[k]);
            assert(l0.skip(k).remove(0) =~= l0.skip(k + 1));
            let name = l.name();
            let out = l.lint_atom(&self.state, atom);
            let ghost o = views(out@);
            let mut coded_out = add_codes(out, name);
            let ghost before = views(warnings@);
            warnings.append(&mut coded_out);
            done.push(l);
            proof {
                lemma_joined_prefix(outs, o, l0, k);
                outs = outs.push(o);
                assert(views(warnings@) =~= before + coded(o, lint_name(l0[k])));
                assert(forall|i: int|
                    0 <= i < k ==> #[trigger] done@[i] == done@[i] && outs[i] == outs.drop_last()[i]);
            }
        }
        self.lints = done;
        let ghost joined_all = views(warnings@);
        self.state.update(atom);
        let ghost mid = self.state;
        let nest = self.state.update_nesting(atom);
        let ghost before = views(warnings@);
        if let Some(w) = nest {
            warnings.push(w);
        }
        proof {
            assert(views(warnings@) =~= before + opt_seq(nesting_step(mid.nesting_view(), *atom).1));
            assert(joined(outs, l0, l0.len() as int) == joined_all);
            assert(update_post(s0, mid, *atom));
            reveal(write_atom_rel);
        }
        warnings
    }
}

} // verus!
