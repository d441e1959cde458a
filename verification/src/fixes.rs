//! Applying the automatic fixes of diagnostics to a source text.

use crate::diagnostic::{Diagnostic, DiagnosticView};
use vstd::prelude::*;
use vstd::string::*;
use vstd::utf8::*;

verus! {

/// The text that `multisplice::Multisplice` gives for a source after the splices `edits` (start
/// and end byte offsets, and replacement), made in order, when none of them makes it panic.
pub uninterp spec fn spliced(source: Seq<char>, edits: Seq<(usize, usize, Seq<char>)>) -> Seq<char>;

/// The replacements of the automatic fixes of the first `n` diagnostics, in order: for each
/// fix that has a replacement, its location and the replacement.
pub open spec fn fix_edits(ds: Seq<DiagnosticView>, n: int) -> Seq<(usize, usize, Seq<char>)>
    decreases n,
{
    if n <= 0 {
        Seq::empty()
    } else {
        fix_edits(ds, n - 1) + edits_of_fixes(ds[n - 1].fixes, ds[n - 1].fixes.len() as int)
    }
}

/// The replacements of the first `n` fixes that have one.
pub open spec fn edits_of_fixes(fixes: Seq<crate::diagnostic::FixView>, n: int) -> Seq<(usize, usize, Seq<char>)>
    decreases n,
{
    if n <= 0 {
        Seq::empty()
    } else {
        let f = fixes[n - 1];
        edits_of_fixes(fixes, n - 1) + match f.replacement {
            Some(r) => seq![(f.location.start.0, f.location.end.0, r)],
            None => Seq::empty(),
        }
    }
}

/// Each edit lies within the source, from one character boundary to another, and starts
/// outside every earlier edit.
pub open spec fn edits_ok(b: Seq<u8>, edits: Seq<(usize, usize, Seq<char>)>) -> bool {
    &&& forall|i: int|
        0 <= i < edits.len() ==> {
            let (s, e, _) = #[trigger] edits[i];
            &&& s <= e <= b.len()
            &&& is_char_boundary(b, s as int)
            &&& is_char_boundary(b, e as int)
        }
    &&& forall|i: int, j: int|
        0 <= j < i < edits.len() ==> !((#[trigger] edits[j]).0 <= (#[trigger] edits[i]).0
            && edits[i].0 < edits[j].1)
}

/// The view of an edit.
pub open spec fn edit_view(e: (usize, usize, String)) -> (usize, usize, Seq<char>) {
    (e.0, e.1, e.2@)
}

/// `multisplice::Multisplice`: a splicer for `source`, each edit spliced in with
/// `Multisplice::splice` in order, and the result taken with `to_string`. The crate keeps the
/// splices sorted by their start and writes the source with each range replaced; a range that
/// lies inside an earlier one is dropped. The result depends on the source and the edits alone,
/// and is named [`spliced`]. The crate panics when an edit starts inside an earlier one, and
/// when it slices the source outside its bounds or off a character boundary; `requires` leaves
/// those inputs out.
#[verifier::external_body]
pub(crate) fn splice_all(source: &str, edits: &[(usize, usize, String)]) -> (r: String)
    requires
        edits_ok(source.spec_bytes(), edits@.map_values(|e: (usize, usize, String)| edit_view(e))),
    ensures
        r@ == spliced(source@, edits@.map_values(|e: (usize, usize, String)| edit_view(e))),
{
    let mut splicer = multisplice::Multisplice::new(source);
    for (start, end, value) in edits.iter() {
        splicer.splice(*start, *end, value.as_str());
    }
    splicer.to_string()
}

/// The replacements of the automatic fixes of the diagnostics, in order.
pub fn autofix_edits(diagnostics: &[Diagnostic]) -> (r: Vec<(usize, usize, String)>)
    ensures
        r@.map_values(|e: (usize, usize, String)| edit_view(e)) == fix_edits(
            diagnostics@.map_values(|d: Diagnostic| d@),
            diagnostics@.len() as int,
        ),
{
    let ghost ds = diagnostics@.map_values(|d: Diagnostic| d@);
    let mut r: Vec<(usize, usize, String)> = Vec::new();
    let mut i: usize = 0;
    while i < diagnostics.len()
        invariant
            i <= diagnostics@.len(),
            ds == diagnostics@.map_values(|d: Diagnostic| d@),
            r@.map_values(|e: (usize, usize, String)| edit_view(e)) == fix_edits(ds, i as int),
        decreases diagnostics@.len() - i,
    {
        let d = &diagnostics[i];
        assert(ds[i as int] == d@);
        let fixes = d.fixes();
        let ghost before = r@.map_values(|e: (usize, usize, String)| edit_view(e));
        let mut k: usize = 0;
        while k < fixes.len()
            invariant
                k <= fixes@.len(),
                fixes@.map_values(|f: crate::diagnostic::Fix| f@) == d@.fixes,
                r@.map_values(|e: (usize, usize, String)| edit_view(e)) == before + edits_of_fixes(d@.fixes, k as int),
            decreases fixes@.len() - k,
        {
            let f = &fixes[k];
            assert(d@.fixes[k as int] == f@);
            let ghost prev = r@.map_values(|e: (usize, usize, String)| edit_view(e));
            if let Some(replacement) = f.replacement() {
                let location = f.location();
                r.push((location.start.0, location.end.0, String::from_str(replacement)));
                assert(r@.map_values(|e: (usize, usize, String)| edit_view(e)) =~= prev.push(
                    (location.start.0, location.end.0, replacement@),
                ));
            }
            assert(r@.map_values(|e: (usize, usize, String)| edit_view(e)) =~= before + edits_of_fixes(d@.fixes, k + 1));
            k = k + 1;
        }
        i = i + 1;
    }
    r
}

/// Do the edits lie within the source, on character boundaries, each starting outside the
/// earlier ones?
pub fn check_edits(source: &str, edits: &[(usize, usize, String)]) -> (r: bool)
    ensures
        r == edits_ok(source.spec_bytes(), edits@.map_values(|e: (usize, usize, String)| edit_view(e))),
{
    let ghost ev = edits@.map_values(|e: (usize, usize, String)| edit_view(e));
    let len = source.as_bytes().len();
    let mut i: usize = 0;
    while i < edits.len()
        invariant
            i <= edits@.len(),
            len == source.spec_bytes().len(),
            ev == edits@.map_values(|e: (usize, usize, String)| edit_view(e)),
            forall|k: int|
                0 <= k < i ==> {
                    let (s, e, _) = #[trigger] ev[k];
                    &&& s <= e <= source.spec_bytes().len()
                    &&& is_char_boundary(source.spec_bytes(), s as int)
                    &&& is_char_boundary(source.spec_bytes(), e as int)
                },
            forall|k: int, j: int| 0 <= j < k < i ==> !((#[trigger] ev[j]).0 <= (#[trigger] ev[k]).0 && ev[k].0 < ev[j].1),
        decreases edits@.len() - i,
    {
        let s = edits[i].0;
        let e = edits[i].1;
        assert(ev[i as int].0 == s && ev[i as int].1 == e);
        if !(s <= e && e <= len) {
            return false;
        }
        if !(source.is_char_boundary(s) && source.is_char_boundary(e)) {
            return false;
        }
        let mut j: usize = 0;
        while j < i
            invariant
                j <= i < edits@.len(),
                ev == edits@.map_values(|e: (usize, usize, String)| edit_view(e)),
                s == ev[i as int].0,
                forall|m: int| 0 <= m < j ==> !((#[trigger] ev[m]).0 <= s && s < ev[m].1),
            decreases i - j,
        {
            assert(ev[j as int].0 == edits@[j as int].0 && ev[j as int].1 == edits@[j as int].1);
            if edits[j].0 <= s && s < edits[j].1 {
                return false;
            }
            j = j + 1;
        }
        i = i + 1;
    }
    true
}

/// The source with the automatic fixes of the diagnostics applied, or `None` when their edits
/// do not lie within the source on character boundaries or one starts inside an earlier one.
pub fn apply_fixes(source: &str, diagnostics: &[Diagnostic]) -> (r: Option<String>)
    ensures
        ({
            let edits = fix_edits(diagnostics@.map_values(|d: Diagnostic| d@), diagnostics@.len() as int);
            &&& r is Some <==> edits_ok(source.spec_bytes(), edits)
            &&& r matches Some(s) ==> s@ == spliced(source@, edits)
        }),
{
    let edits = autofix_edits(diagnostics);
    if check_edits(source, edits.as_slice()) {
        Some(splice_all(source, edits.as_slice()))
    } else {
        None
    }
}

} // verus!
