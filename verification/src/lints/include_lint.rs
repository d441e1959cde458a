//! Warns about `#include` and `#include_drs`, which only builtin maps may use.

use crate::diagnostic::{diagnostic_view, fix_view, suggest_view, Diagnostic, DiagnosticView, Fix, Severity};
use crate::parser::{Atom, AtomKind};
use crate::state::ParseState;
use crate::text::str_eq;
use vstd::prelude::*;

verus! {

/// Warns about `#include` and `#include_drs`, which only builtin maps may use.
pub struct IncludeLint {}

/// What [`IncludeLint`] reports for an atom.
pub open spec fn include_view(atom: Atom) -> Seq<DiagnosticView> {
    match atom.kind {
        AtomKind::Command { name, .. } => if name.value@ == "#include_drs"@ {
            seq![
                diagnostic_view(
                    Severity::Error,
                    atom.location,
                    "#include_drs can only be used by builtin maps"@,
                ),
            ]
        } else if name.value@ == "#include"@ {
            seq![
                suggest_view(
                    diagnostic_view(
                        Severity::Error,
                        atom.location,
                        "#include can only be used by builtin maps"@,
                    ),
                    fix_view(
                        atom.location,
                        "If you're trying to make a map pack, use a map pack generator instead."@,
                    ),
                ),
            ]
        } else {
            Seq::empty()
        },
        _ => Seq::empty(),
    }
}

impl IncludeLint {
    /// The lint.
    pub fn new() -> (r: Self) {
        IncludeLint {}
    }

    /// The code of this lint's diagnostics.
    pub fn name(&self) -> (r: &'static str)
        ensures
            r@ == "include"@,
    {
        "include"
    }

    /// The diagnostics for one atom.
    pub fn lint_atom(&mut self, _state: &ParseState, atom: &Atom) -> (r: Vec<Diagnostic>)
        ensures
            r@.map_values(|d: Diagnostic| d@) == include_view(*atom),
    {
        let mut r = Vec::new();
        match &atom.kind {
            AtomKind::Command { name, .. } => {
                if str_eq(name.value, "#include_drs") {
                    r.push(
                        Diagnostic::error(atom.location, "#include_drs can only be used by builtin maps"),
                    );
                } else if str_eq(name.value, "#include") {
                    r.push(
                        Diagnostic::error(atom.location, "#include can only be used by builtin maps").suggest(
                            Fix::new(
                                atom.location,
                                "If you're trying to make a map pack, use a map pack generator instead.",
                            ),
                        ),
                    );
                }
            },
            _ => {},
        }
        assert(r@.map_values(|d: Diagnostic| d@) =~= include_view(*atom));
        r
    }
}

/// `#include` and `#include_drs` commands each draw exactly one error at the command, and
/// nothing else draws any.
pub proof fn law_imports_refused(atom: Atom)
    ensures
        ({
            let ds = include_view(atom);
            let imported = atom.kind matches AtomKind::Command { name, .. } && (name.value@
                == "#include"@ || name.value@ == "#include_drs"@);
            &&& ds.len() == (if imported { 1int } else { 0int })
            &&& imported ==> ds[0].severity == Severity::Error && ds[0].location == atom.location
        }),
{
}

} // verus!
