//! Finds commands written with upper-case letters, which the game does not recognise.

use crate::casing::string_from_chars;
use crate::diagnostic::{
    autofix_view, diagnostic_view, fix_replace_view, Diagnostic, DiagnosticView, Fix, Severity,
};
use crate::lints::concat3;
use crate::parser::{Atom, AtomKind};
use crate::state::ParseState;
use crate::text::{lower_char_vec, lower_chars, str_chars};
use crate::tokens::{is_token, is_token_name};
use vstd::prelude::*;
use vstd::string::*;
use vstd::utf8::*;

verus! {

/// Finds commands written with upper-case letters, which the game does not recognise.
pub struct AttributeCaseLint {}

/// Does the text hold an ASCII upper-case letter?
pub open spec fn has_upper_char(v: Seq<char>) -> bool {
    exists|i: int| 0 <= i < v.len() && 'A' <= #[trigger] v[i] && v[i] <= 'Z'
}

/// The lower-case spelling of a name, when the name is no token but that spelling is one.
pub open spec fn fix_case_view(v: Seq<char>) -> Option<Seq<char>> {
    if !has_upper_char(v) {
        None
    } else if !is_token_name(encode_utf8(v)) && is_token_name(encode_utf8(lower_chars(v))) {
        Some(lower_chars(v))
    } else {
        None
    }
}

/// What [`AttributeCaseLint`] reports for an atom.
pub open spec fn attribute_case_view(atom: Atom) -> Seq<DiagnosticView> {
    match atom.kind {
        AtomKind::Command { name, .. } => match fix_case_view(name.value@) {
            Some(fixed) => seq![
                autofix_view(
                    diagnostic_view(
                        Severity::Error,
                        name.location,
                        "Unknown attribute `"@ + name.value@ + "`"@,
                    ),
                    fix_replace_view(name.location, "Convert to lowercase"@, fixed),
                ),
            ],
            None => Seq::empty(),
        },
        _ => Seq::empty(),
    }
}

impl AttributeCaseLint {
    /// The lint.
    pub fn new() -> (r: Self) {
        AttributeCaseLint {}
    }

    /// The code of this lint's diagnostics.
    pub fn name(&self) -> (r: &'static str)
        ensures
            r@ == "attribute-case"@,
    {
        "attribute-case"
    }

    /// The lower-case spelling of `value`, when that is a token and `value` is not.
    pub fn fix_case(&self, value: &str) -> (r: Option<String>)
        ensures
            match r {
                Some(s) => fix_case_view(value@) == Some(s@),
                None => fix_case_view(value@) is None,
            },
    {
        let chars = str_chars(value);
        let mut i: usize = 0;
        let mut upper = false;
        while i < chars.len()
            invariant
                chars@ == value@,
                i <= chars@.len(),
                upper == exists|j: int| 0 <= j < i && 'A' <= #[trigger] chars@[j] && chars@[j] <= 'Z',
            decreases chars@.len() - i,
        {
            if 'A' <= chars[i] && chars[i] <= 'Z' {
                upper = true;
            }
            i = i + 1;
        }
        // If the value was already lowercase, nothing can change, and we don't need to check.
        if !upper {
            return None;
        }
        let lower = string_from_chars(lower_char_vec(chars.as_slice()).as_slice());
        if !is_token(value.as_bytes()) && is_token(lower.as_str().as_bytes()) {
            Some(lower)
        } else {
            // The lowercase value _also_ isn't an attribute, so we can't fix it.
            None
        }
    }

    /// The diagnostics for one atom.
    pub fn lint_atom(&mut self, _state: &ParseState, atom: &Atom) -> (r: Vec<Diagnostic>)
        ensures
            r@.map_values(|d: Diagnostic| d@) == attribute_case_view(*atom),
    {
        let mut r = Vec::new();
        if let AtomKind::Command { name, .. } = &atom.kind {
            if let Some(fixed_case) = self.fix_case(name.value) {
                let msg = concat3("Unknown attribute `", name.value, "`");
                r.push(
                    Diagnostic::error(name.location, msg.as_str()).autofix(
                        Fix::new(name.location, "Convert to lowercase").replace(fixed_case.as_str()),
                    ),
                );
            }
        }
        assert(r@.map_values(|d: Diagnostic| d@) =~= attribute_case_view(*atom));
        r
    }
}

} // verus!
