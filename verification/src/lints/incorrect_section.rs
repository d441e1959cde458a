//! Warns about commands outside the section they belong to.

use crate::diagnostic::{
    diagnostic_view, label_view, Diagnostic, DiagnosticView, Label, LabelView, Severity,
};
use crate::lints::{concat3, concat5};
use crate::parser::{text, Atom, AtomKind};
use crate::state::ParseState;
use crate::text::{ascii_lowercase, lower_bytes, str_eq};
use crate::tokens::{lookup_token, spec_lookup};
use vstd::prelude::*;
use vstd::string::*;

verus! {

/// Warns about commands outside the section they belong to.
pub struct IncorrectSectionLint {}

/// What [`IncorrectSectionLint`] reports for an atom, given the current section atom.
pub open spec fn incorrect_section_view(section: Option<Atom>, atom: Atom) -> Seq<DiagnosticView> {
    match atom.kind {
        AtomKind::Command { name, .. } => match spec_lookup(lower_bytes(text(name))) {
            Some(info) => match info.section {
                Some(expected) => match section {
                    Some(cur) => match cur.kind {
                        AtomKind::Section { name: sec } => if text(sec) != expected {
                            seq![
                                label_view(
                                    diagnostic_view(
                                        Severity::Error,
                                        atom.location,
                                        "Command is invalid in section "@ + sec.value@
                                            + ", it can only appear in "@ + vstd::utf8::decode_utf8(
                                            expected,
                                        ),
                                    ),
                                    LabelView {
                                        location: cur.location,
                                        message: "Section started here"@,
                                    },
                                ),
                            ]
                        } else {
                            Seq::empty()
                        },
                        _ => Seq::empty(),
                    },
                    None => seq![
                        diagnostic_view(
                            Severity::Error,
                            atom.location,
                            "Command can only appear in section "@ + vstd::utf8::decode_utf8(
                                expected,
                            ) + ", but no section has been started."@,
                        ),
                    ],
                },
                None => Seq::empty(),
            },
            None => Seq::empty(),
        },
        _ => Seq::empty(),
    }
}

impl IncorrectSectionLint {
    /// The lint.
    pub fn new() -> (r: Self) {
        IncorrectSectionLint {}
    }

    /// The code of this lint's diagnostics.
    pub fn name(&self) -> (r: &'static str)
        ensures
            r@ == "incorrect-section"@,
    {
        "incorrect-section"
    }

    /// The diagnostics for one atom.
    pub fn lint_atom(&mut self, state: &ParseState, atom: &Atom) -> (r: Vec<Diagnostic>)
        ensures
            r@.map_values(|d: Diagnostic| d@) == incorrect_section_view(state.spec_section(), *atom),
    {
        let mut r = Vec::new();
        if let AtomKind::Command { name, .. } = &atom.kind {
            let low = ascii_lowercase(name.value.as_bytes());
            if let Some(token_type) = lookup_token(low.as_slice()) {
                if let Some(expected) = token_type.command_section() {
                    proof {
                        crate::text::lemma_decode_bytes(expected);
                    }
                    match state.current_section() {
                        Some(current) => {
                            if let AtomKind::Section { name: section_name } = &current.kind {
                                if !str_eq(section_name.value, expected) {
                                    let msg = concat5(
                                        "Command is invalid in section ",
                                        section_name.value,
                                        ", it can only appear in ",
                                        expected,
                                        "",
                                    );
                                    proof {
                                        reveal_strlit("");
                                    }
                                    r.push(
                                        Diagnostic::error(atom.location, msg.as_str()).add_label(
                                            Label::new(current.location, "Section started here"),
                                        ),
                                    );
                                }
                            }
                        },
                        None => {
                            let msg = concat3(
                                "Command can only appear in section ",
                                expected,
                                ", but no section has been started.",
                            );
                            r.push(Diagnostic::error(atom.location, msg.as_str()));
                        },
                    }
                }
            }
        }
        assert(r@.map_values(|d: Diagnostic| d@) =~= incorrect_section_view(
            state.spec_section(),
            *atom,
        ));
        r
    }
}

/// A known command that belongs to a section draws exactly one error, at the command, when no
/// section has started or the current section is another one; in its own section, and for any
/// command without a section or any other atom, nothing is reported.
pub proof fn law_command_in_its_section(section: Option<Atom>, atom: Atom)
    requires
        section matches Some(cur) ==> cur.kind is Section,
    ensures
        ({
            let ds = incorrect_section_view(section, atom);
            let misplaced = match atom.kind {
                AtomKind::Command { name, .. } => match spec_lookup(lower_bytes(text(name))) {
                    Some(info) => match info.section {
                        Some(expected) => match section {
                            Some(cur) => match cur.kind {
                                AtomKind::Section { name: sec } => text(sec) != expected,
                                _ => false,
                            },
                            None => true,
                        },
                        None => false,
                    },
                    None => false,
                },
                _ => false,
            };
            &&& ds.len() == (if misplaced { 1int } else { 0int })
            &&& misplaced ==> ds[0].severity == Severity::Error && ds[0].location == atom.location
        }),
{
}

} // verus!
