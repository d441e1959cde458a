//! The lint rules.

pub mod actor_areas_match;
pub mod arg_types;
pub mod attribute_case;
pub mod comment_contents;
pub mod compatibility;
pub mod dead_branch_comment;
pub mod include_lint;
pub mod incorrect_section;
pub mod unknown_attribute;

use crate::diagnostic::{fix_replace_view, suggest_view, Diagnostic, DiagnosticView, Fix, SourceLocation};
use crate::parser::{text, Atom, AtomKind};
use crate::similarity::{meant, meant_index, scores_of};
use crate::text::{lemma_decode_bytes, lower_bytes};
use crate::tokens::is_token_name;
use vstd::prelude::*;
use vstd::string::*;
use vstd::utf8::*;

verus! {

/// The atom is not a command, or its name, in lower case, is a known token: this holds of
/// every atom that the parser makes.
pub open spec fn command_known(atom: Atom) -> bool {
    atom.kind matches AtomKind::Command { name, .. } ==> is_token_name(lower_bytes(text(name)))
}

/// Names, as the characters that their bytes encode.
pub open spec fn names_chars(names: Seq<Seq<u8>>) -> Seq<Seq<char>> {
    names.map_values(|n: Seq<u8>| decode_utf8(n))
}

/// The diagnostic, with a suggestion to write the name that `actual` was most likely meant to
/// be, if any of the names is similar enough.
pub open spec fn with_guess(
    d: DiagnosticView,
    location: SourceLocation,
    actual: Seq<char>,
    names: Seq<Seq<char>>,
) -> DiagnosticView {
    match meant_index(scores_of(actual, names)) {
        Some(i) => suggest_view(
            d,
            fix_replace_view(location, "Did you mean `"@ + names[i] + "`?"@, names[i]),
        ),
        None => d,
    }
}

/// The characters of string slices are what their bytes decode to.
pub proof fn lemma_names_chars(v: Seq<&str>, names: Seq<Seq<u8>>)
    requires
        v.map_values(|s: &str| s.spec_bytes()) == names,
    ensures
        v.map_values(|s: &str| s@) == names_chars(names),
{
    let a = v.map_values(|s: &str| s@);
    let b = names_chars(names);
    assert forall|i: int| 0 <= i < v.len() implies #[trigger] a[i] == b[i] by {
        assert(names[i] == v[i].spec_bytes());
        lemma_decode_bytes(v[i]);
    }
    assert(a =~= b);
}

/// Adds to `d` a suggestion to write the candidate that `actual` was most likely meant to be.
pub fn add_guess(d: Diagnostic, location: SourceLocation, actual: &str, candidates: &[&str]) -> (r:
    Diagnostic)
    ensures
        r@ == with_guess(d@, location, actual@, candidates@.map_values(|c: &str| c@)),
{
    let ghost names = candidates@.map_values(|c: &str| c@);
    match meant(actual, candidates) {
        Some(similar) => {
            proof {
                let i = meant_index(scores_of(actual@, names))->0;
                assert(names[i] == similar@);
            }
            let msg = concat3("Did you mean `", similar, "`?");
            d.suggest(Fix::new(location, msg.as_str()).replace(similar))
        },
        None => d,
    }
}

/// Three pieces of text, joined.
pub fn concat3(a: &str, b: &str, c: &str) -> (r: String)
    ensures
        r@ == a@ + b@ + c@,
{
    String::from_str(a).concat(b).concat(c)
}

/// Four pieces of text, joined.
pub fn concat4(a: &str, b: &str, c: &str, d: &str) -> (r: String)
    ensures
        r@ == a@ + b@ + c@ + d@,
{
    String::from_str(a).concat(b).concat(c).concat(d)
}

/// Five pieces of text, joined.
pub fn concat5(a: &str, b: &str, c: &str, d: &str, e: &str) -> (r: String)
    ensures
        r@ == a@ + b@ + c@ + d@ + e@,
{
    String::from_str(a).concat(b).concat(c).concat(d).concat(e)
}

} // verus!
