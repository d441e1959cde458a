//! Reports words that are no known token, and suggests the token that was likely meant.

use crate::diagnostic::{diagnostic_view, Diagnostic, DiagnosticView, Severity};
use crate::lints::{add_guess, concat3, lemma_names_chars, names_chars, with_guess};
use crate::parser::{text, Atom, AtomKind};
use crate::state::ParseState;
use crate::text::all_digits;
use crate::tokens::{spec_token_names, token_names};
use vstd::prelude::*;
use vstd::string::*;

verus! {

/// Reports words that are no known token, and suggests the token that was likely meant.
pub struct UnknownAttributeLint {}

/// What [`UnknownAttributeLint`] reports for an atom: unrecognised words that are not numbers.
pub open spec fn unknown_attribute_view(atom: Atom) -> Seq<DiagnosticView> {
    match atom.kind {
        AtomKind::Other { value } => if !all_digits(text(value)) {
            seq![
                with_guess(
                    diagnostic_view(
                        Severity::Error,
                        value.location,
                        "Unknown attribute `"@ + value.value@ + "`"@,
                    ),
                    value.location,
                    value.value@,
                    names_chars(spec_token_names()),
                ),
            ]
        } else {
            Seq::empty()
        },
        _ => Seq::empty(),
    }
}

impl UnknownAttributeLint {
    /// The lint.
    pub fn new() -> (r: Self) {
        UnknownAttributeLint {}
    }

    /// The code of this lint's diagnostics.
    pub fn name(&self) -> (r: &'static str)
        ensures
            r@ == "unknown-attribute"@,
    {
        "unknown-attribute"
    }

    /// The diagnostics for one atom.
    pub fn lint_atom(&mut self, _state: &ParseState, atom: &Atom) -> (r: Vec<Diagnostic>)
        ensures
            r@.map_values(|d: Diagnostic| d@) == unknown_attribute_view(*atom),
    {
        let mut r = Vec::new();
        // Treat unrecognised tokens as attributes, if they are not numbers
        if let AtomKind::Other { value } = &atom.kind {
            let b = value.value.as_bytes();
            let mut i: usize = 0;
            let mut digits = true;
            while i < b.len()
                invariant
                    b@ == text(*value),
                    i <= b@.len(),
                    digits == forall|j: int| 0 <= j < i ==> 0x30 <= #[trigger] b@[j] && b@[j] <= 0x39,
                decreases b@.len() - i,
            {
                if !(0x30 <= b[i] && b[i] <= 0x39) {
                    digits = false;
                }
                i = i + 1;
            }
            if !digits {
                let msg = concat3("Unknown attribute `", value.value, "`");
                let warning = Diagnostic::error(value.location, msg.as_str());
                let names = token_names();
                proof {
                    lemma_names_chars(names@, spec_token_names());
                }
                r.push(add_guess(warning, value.location, value.value, names.as_slice()));
            }
        }
        assert(r@.map_values(|d: Diagnostic| d@) =~= unknown_attribute_view(*atom));
        r
    }
}

/// Every unrecognised word that is not a number draws exactly one error at the word, naming it;
/// numbers and every other kind of atom draw none.
pub proof fn law_unknown_words_reported(atom: Atom)
    ensures
        ({
            let ds = unknown_attribute_view(atom);
            match atom.kind {
                AtomKind::Other { value } => if all_digits(text(value)) {
                    ds.len() == 0
                } else {
                    &&& ds.len() == 1
                    &&& ds[0].severity == Severity::Error
                    &&& ds[0].location == value.location
                    &&& ds[0].message == "Unknown attribute `"@ + value.value@ + "`"@
                },
                _ => ds.len() == 0,
            }
        }),
{
}

} // verus!
