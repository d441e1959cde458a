//! Warns about actor areas that are used but never defined.

use crate::diagnostic::{diagnostic_view, Diagnostic, DiagnosticView, Severity, SourceLocation};
use crate::lints::concat3;
use crate::parser::{text, Atom, AtomKind};
use crate::state::ParseState;
use crate::text::{decimal_int, i32_to_string, parse_i32, spec_parse_i32, str_eq};
use vstd::prelude::*;

verus! {

/// Warns about actor areas that are used but never defined.
pub struct ActorAreasMatchLint {
    actor_areas: Vec<(i32, SourceLocation)>,
}

/// Is `n` one of the defined areas?
pub open spec fn area_defined(areas: Seq<(i32, SourceLocation)>, n: i32) -> bool {
    exists|i: int| 0 <= i < areas.len() && (#[trigger] areas[i]).0 == n
}

/// The actor areas after an atom, and what the lint reports for it.
pub open spec fn actor_areas_step(areas: Seq<(i32, SourceLocation)>, atom: Atom) -> (
    Seq<(i32, SourceLocation)>,
    Seq<DiagnosticView>,
) {
    match atom.kind {
        AtomKind::Command { name, arguments } => if arguments@.len() == 0 {
            (areas, Seq::empty())
        } else if name.value@ == "actor_area"@ {
            match spec_parse_i32(text(arguments@[0])) {
                Some(n) => (areas.push((n, arguments@[0].location)), Seq::empty()),
                None => (areas, Seq::empty()),
            }
        } else if name.value@ == "actor_area_to_place_in"@ || name.value@ == "avoid_actor_area"@ {
            match spec_parse_i32(text(arguments@[0])) {
                Some(n) => if area_defined(areas, n) {
                    (areas, Seq::empty())
                } else {
                    (
                        areas,
                        seq![
                            diagnostic_view(
                                Severity::Warning,
                                arguments@[0].location,
                                "Actor area "@ + decimal_int(n as int) + " is never defined"@,
                            ),
                        ],
                    )
                },
                None => (areas, Seq::empty()),
            }
        } else {
            (areas, Seq::empty())
        },
        _ => (areas, Seq::empty()),
    }
}

impl ActorAreasMatchLint {
    /// The actor areas defined so far, with the location of their number.
    pub closed spec fn areas(&self) -> Seq<(i32, SourceLocation)> {
        self.actor_areas@
    }

    /// The lint, with no actor areas yet.
    pub fn new() -> (r: Self)
        ensures
            r.areas().len() == 0,
    {
        ActorAreasMatchLint { actor_areas: Vec::new() }
    }

    /// The code of this lint's diagnostics.
    pub fn name(&self) -> (r: &'static str)
        ensures
            r@ == "actor-areas-match"@,
    {
        "actor-areas-match"
    }

    /// The diagnostics for one atom.
    pub fn lint_atom(&mut self, _state: &ParseState, atom: &Atom) -> (r: Vec<Diagnostic>)
        ensures
            (final(self).areas(), r@.map_values(|d: Diagnostic| d@)) == actor_areas_step(
                old(self).areas(),
                *atom,
            ),
    {
        let mut r = Vec::new();
        if let AtomKind::Command { name, arguments } = &atom.kind {
            if arguments.len() > 0 {
                let arg = arguments[0];
                if str_eq(name.value, "actor_area") {
                    if let Some(n) = parse_i32(arg.value.as_bytes()) {
                        self.actor_areas.push((n, arg.location));
                    }
                } else if str_eq(name.value, "actor_area_to_place_in") || str_eq(
                    name.value,
                    "avoid_actor_area",
                ) {
                    if let Some(n) = parse_i32(arg.value.as_bytes()) {
                        if !self.has_area(n) {
                            let number = i32_to_string(n);
                            let msg = concat3("Actor area ", number.as_str(), " is never defined");
                            r.push(Diagnostic::warning(arg.location, msg.as_str()));
                        }
                    }
                }
            }
        }
        assert(r@.map_values(|d: Diagnostic| d@) =~= actor_areas_step(old(self).areas(), *atom).1);
        r
    }

    fn has_area(&self, n: i32) -> (r: bool)
        ensures
            r == area_defined(self.areas(), n),
    {
        let mut i: usize = 0;
        while i < self.actor_areas.len()
            invariant
                i <= self.actor_areas@.len(),
                forall|j: int| 0 <= j < i ==> (#[trigger] self.actor_areas@[j]).0 != n,
            decreases self.actor_areas@.len() - i,
        {
            if self.actor_areas[i].0 == n {
                return true;
            }
            i = i + 1;
        }
        false
    }
}

} // verus!

verus! {

/// The actor areas after the first `n` atoms, from none.
pub open spec fn run_areas(atoms: Seq<Atom>, n: int) -> Seq<(i32, SourceLocation)>
    decreases n,
{
    if n <= 0 {
        Seq::empty()
    } else {
        actor_areas_step(run_areas(atoms, n - 1), atoms[n - 1]).0
    }
}

/// Is the atom an `actor_area` command whose argument is the number `m`?
pub open spec fn defines_area(atom: Atom, m: i32) -> bool {
    atom.kind matches AtomKind::Command { name, arguments } && arguments@.len() > 0
        && name.value@ == "actor_area"@ && spec_parse_i32(text(arguments@[0])) == Some(m)
}

/// Is the atom an `actor_area_to_place_in` or `avoid_actor_area` command whose argument is the
/// number `m`?
pub open spec fn uses_area(atom: Atom, m: i32) -> bool {
    atom.kind matches AtomKind::Command { name, arguments } && arguments@.len() > 0 && (
    name.value@ == "actor_area_to_place_in"@ || name.value@ == "avoid_actor_area"@)
        && spec_parse_i32(text(arguments@[0])) == Some(m)
}

/// After some atoms, an area is known exactly when one of them defined it.
proof fn lemma_run_areas(atoms: Seq<Atom>, n: int, m: i32)
    requires
        0 <= n <= atoms.len(),
    ensures
        area_defined(run_areas(atoms, n), m) <==> exists|j: int| 0 <= j < n && defines_area(#[trigger] atoms[j], m),
    decreases n,
{
    if n > 0 {
        lemma_run_areas(atoms, n - 1, m);
        let prev = run_areas(atoms, n - 1);
        let a = atoms[n - 1];
        if defines_area(a, m) {
            assert(run_areas(atoms, n)[prev.len() as int].0 == m);
        }
        if area_defined(run_areas(atoms, n), m) {
            let i = choose|i: int| 0 <= i < run_areas(atoms, n).len() && (#[trigger] run_areas(atoms, n)[i]).0 == m;
            if i < prev.len() {
                assert(run_areas(atoms, n)[i] == prev[i]);
            } else {
                assert(defines_area(a, m));
            }
        }
        if exists|j: int| 0 <= j < n && defines_area(#[trigger] atoms[j], m) {
            let j = choose|j: int| 0 <= j < n && defines_area(#[trigger] atoms[j], m);
            if j < n - 1 {
                let i = choose|i: int| 0 <= i < prev.len() && (#[trigger] prev[i]).0 == m;
                assert(run_areas(atoms, n)[i] == prev[i]);
            }
        }
    }
}

/// Over a script, starting from no areas, a use of an actor area is flagged exactly when no
/// earlier `actor_area` defined that number, and then with one warning.
pub proof fn law_area_flagged_iff_undefined(atoms: Seq<Atom>, k: int, m: i32)
    requires
        0 <= k < atoms.len(),
        uses_area(atoms[k], m),
    ensures
        actor_areas_step(run_areas(atoms, k), atoms[k]).1.len() == (if exists|j: int|
            0 <= j < k && defines_area(#[trigger] atoms[j], m) {
            0int
        } else {
            1int
        }),
{
    lemma_run_areas(atoms, k, m);
    reveal_strlit("actor_area");
    reveal_strlit("actor_area_to_place_in");
    reveal_strlit("avoid_actor_area");
    if let AtomKind::Command { name, arguments } = atoms[k].kind {
        assert(name.value@ != "actor_area"@) by {
            if name.value@ == "actor_area_to_place_in"@ {
                assert(name.value@.len() != "actor_area"@.len());
            } else {
                assert(name.value@.len() != "actor_area"@.len());
            }
        }
    }
}

} // verus!
