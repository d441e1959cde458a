//! Warns about comments inside `start_random` groups.

use crate::diagnostic::{
    diagnostic_view, fix_view, label_view, suggest_view, Diagnostic, DiagnosticView, Fix, Label,
    LabelView, Severity, SourceLocation,
};
use crate::parser::{Atom, AtomKind};
use crate::state::{nest_view, NestingKind, ParseState};
use vstd::prelude::*;

verus! {

/// Warns about comments inside `start_random` groups: a comment there is potentially
/// dangerous.
pub struct DeadBranchCommentLint {}

/// The warning for a comment at `at` inside the `start_random` opened at `start`.
pub open spec fn dead_comment_view(at: SourceLocation, start: SourceLocation) -> DiagnosticView {
    suggest_view(
        label_view(
            diagnostic_view(
                Severity::Warning,
                at,
                "Using comments inside `start_random` groups is potentially dangerous."@,
            ),
            LabelView { location: start, message: "`start_random` opened here"@ },
        ),
        fix_view(
            at,
            "Only #define constants in the `start_random` group, and then use `if` branches for the actual code."@,
        ),
    )
}

/// One warning for each open `start_random` group, outermost first.
pub open spec fn dead_comments_from(
    nesting: Seq<(NestingKind, SourceLocation)>,
    at: SourceLocation,
    i: int,
) -> Seq<DiagnosticView>
    decreases i,
{
    if i <= 0 || i > nesting.len() {
        Seq::empty()
    } else {
        dead_comments_from(nesting, at, i - 1) + if nesting[i - 1].0 == NestingKind::StartRandom {
            seq![dead_comment_view(at, nesting[i - 1].1)]
        } else {
            Seq::empty()
        }
    }
}

/// What [`DeadBranchCommentLint`] reports for an atom, given the open nested contexts.
pub open spec fn dead_branch_view(nesting: Seq<(NestingKind, SourceLocation)>, atom: Atom) -> Seq<
    DiagnosticView,
> {
    match atom.kind {
        AtomKind::Comment { .. } => dead_comments_from(nesting, atom.location, nesting.len() as int),
        _ => Seq::empty(),
    }
}

impl DeadBranchCommentLint {
    /// The lint.
    pub fn new() -> (r: Self) {
        DeadBranchCommentLint {}
    }

    /// The code of this lint's diagnostics.
    pub fn name(&self) -> (r: &'static str)
        ensures
            r@ == "dead-comment"@,
    {
        "dead-comment"
    }

    /// The diagnostics for one atom.
    pub fn lint_atom(&mut self, state: &ParseState, atom: &Atom) -> (r: Vec<Diagnostic>)
        ensures
            r@.map_values(|d: Diagnostic| d@) == dead_branch_view(state.nesting_view(), *atom),
    {
        let mut r: Vec<Diagnostic> = Vec::new();
        if let AtomKind::Comment { .. } = &atom.kind {
            let nesting = state.nesting();
            let ghost nv = state.nesting_view();
            let mut i: usize = 0;
            while i < nesting.len()
                invariant
                    i <= nesting@.len(),
                    nesting@.map_values(|n: crate::state::Nesting| nest_view(n)) == nv,
                    r@.map_values(|d: Diagnostic| d@) == dead_comments_from(nv, atom.location, i as int),
                decreases nesting@.len() - i,
            {
                let ghost before = r@;
                let nest = &nesting[i];
                if nest.kind() == NestingKind::StartRandom {
                    r.push(
                        Diagnostic::warning(
                            atom.location,
                            "Using comments inside `start_random` groups is potentially dangerous.",
                        ).add_label(Label::new(nest.location(), "`start_random` opened here")).suggest(
                            Fix::new(
                                atom.location,
                                "Only #define constants in the `start_random` group, and then use `if` branches for the actual code.",
                            ),
                        ),
                    );
                }
                assert(nv[i as int] == nest_view(*nest));
                assert(r@.map_values(|d: Diagnostic| d@) =~= dead_comments_from(
                    nv,
                    atom.location,
                    i + 1,
                ));
                i = i + 1;
            }
        }
        r
    }
}

/// The warnings for the first `i` open contexts: one per `start_random` among them, each at
/// the comment and pointing at where that group was opened.
proof fn lemma_dead_comments(nesting: Seq<(NestingKind, SourceLocation)>, at: SourceLocation, i: int)
    requires
        0 <= i <= nesting.len(),
    ensures
        ({
            let ds = dead_comments_from(nesting, at, i);
            &&& ds.len() == 0 <==> forall|j: int| 0 <= j < i ==> (#[trigger] nesting[j]).0 != NestingKind::StartRandom
            &&& forall|k: int| 0 <= k < ds.len() ==> (#[trigger] ds[k]).location == at && ds[k].severity
                == Severity::Warning && exists|j: int|
                0 <= j < i && (#[trigger] nesting[j]).0 == NestingKind::StartRandom && ds[k].labels
                == seq![LabelView { location: nesting[j].1, message: "`start_random` opened here"@ }]
        }),
    decreases i,
{
    if i > 0 {
        lemma_dead_comments(nesting, at, i - 1);
        let prev = dead_comments_from(nesting, at, i - 1);
        let ds = dead_comments_from(nesting, at, i);
        if nesting[i - 1].0 == NestingKind::StartRandom {
            let d = dead_comment_view(at, nesting[i - 1].1);
            assert(ds == prev + seq![d]);
            assert(d.labels =~= seq![LabelView { location: nesting[i - 1].1, message: "`start_random` opened here"@ }]);
            assert forall|k: int| 0 <= k < ds.len() implies (#[trigger] ds[k]).location == at && ds[k].severity
                == Severity::Warning && exists|j: int|
                0 <= j < i && (#[trigger] nesting[j]).0 == NestingKind::StartRandom && ds[k].labels
                == seq![LabelView { location: nesting[j].1, message: "`start_random` opened here"@ }] by {
                if k < prev.len() {
                    assert(ds[k] == prev[k]);
                } else {
                    assert(ds[k] == d);
                    assert(nesting[i - 1].0 == NestingKind::StartRandom);
                }
            }
        } else {
            assert(ds =~= prev);
        }
    }
}

/// A comment draws one warning for each `start_random` group it stands in, each at the comment
/// and pointing at where its group was opened; a comment in no such group, and every other
/// atom, draws none.
pub proof fn law_comments_in_random_groups(nesting: Seq<(NestingKind, SourceLocation)>, atom: Atom)
    ensures
        ({
            let ds = dead_branch_view(nesting, atom);
            &&& !(atom.kind is Comment) ==> ds.len() == 0
            &&& atom.kind is Comment ==> (ds.len() == 0 <==> forall|j: int|
                0 <= j < nesting.len() ==> (#[trigger] nesting[j]).0 != NestingKind::StartRandom)
            &&& forall|k: int| 0 <= k < ds.len() ==> (#[trigger] ds[k]).location == atom.location
                && ds[k].severity == Severity::Warning && exists|j: int|
                0 <= j < nesting.len() && (#[trigger] nesting[j]).0 == NestingKind::StartRandom
                && ds[k].labels == seq![LabelView { location: nesting[j].1, message: "`start_random` opened here"@ }]
        }),
{
    lemma_dead_comments(nesting, atom.location, nesting.len() as int);
}

} // verus!
