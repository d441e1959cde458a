//! Warns about features that the targeted game version does not support.

use crate::diagnostic::{
    diagnostic_view, fix_view, suggest_view, Diagnostic, DiagnosticView, Fix, Severity,
};
use crate::parser::{Atom, AtomKind};
use crate::state::{Compatibility, ParseState};
use crate::text::str_eq;
use crate::wordize::Word;
use vstd::prelude::*;
use vstd::string::*;

verus! {

/// Warns about features that the targeted game version does not support. It keeps track of the
/// `if` conditions around the current atom, since `if UP_AVAILABLE`, `if UP_EXTENSION` and
/// `if DE_AVAILABLE` make the features of those versions safe to use.
pub struct CompatibilityLint {
    conditions: Vec<String>,
}

/// Does the condition list hold `name`?
pub open spec fn has_condition(conditions: Seq<Seq<char>>, name: Seq<char>) -> bool {
    conditions.contains(name)
}

/// UserPatch 1.5 features are available.
pub open spec fn spec_has_up_extension(c: Compatibility, conditions: Seq<Seq<char>>) -> bool {
    c.spec_level() >= Compatibility::UserPatch15.spec_level() || has_condition(
        conditions,
        "UP_EXTENSION"@,
    )
}

/// UserPatch 1.4 features are available.
pub open spec fn spec_has_up_available(c: Compatibility, conditions: Seq<Seq<char>>) -> bool {
    c.spec_level() >= Compatibility::UserPatch14.spec_level() || has_condition(
        conditions,
        "UP_AVAILABLE"@,
    )
}

/// Definitive Edition features are available: the script targets it, or the atom lies inside an
/// `if DE_AVAILABLE`.
pub open spec fn spec_has_de(c: Compatibility, conditions: Seq<Seq<char>>) -> bool {
    c == Compatibility::DefinitiveEdition || has_condition(conditions, "DE_AVAILABLE"@)
}

/// A warning with one suggestion at the atom's location.
pub open spec fn warn_suggest(atom: Atom, msg: Seq<char>, fix: Seq<char>) -> DiagnosticView {
    suggest_view(
        diagnostic_view(Severity::Warning, atom.location, msg),
        fix_view(atom.location, fix),
    )
}

/// What [`CompatibilityLint`] reports for an atom.
pub open spec fn compatibility_warnings(
    c: Compatibility,
    conditions: Seq<Seq<char>>,
    atom: Atom,
) -> Seq<DiagnosticView> {
    match atom.kind {
        AtomKind::Command { name, .. } => {
            let n = name.value@;
            if n == "effect_amount"@ || n == "effect_percent"@ {
                if !spec_has_up_extension(c, conditions) {
                    seq![warn_suggest(atom, "RMS Effects require UserPatch 1.5"@, "Wrap this command in an `if UP_EXTENSION` statement or add a /* Compatibility: UserPatch 1.5 */ comment at the top of the file"@)]
                } else {
                    Seq::empty()
                }
            } else if n == "direct_placement"@ {
                if !spec_has_up_extension(c, conditions) {
                    seq![warn_suggest(atom, "Direct placement requires UserPatch 1.5 or Definitive Edition"@, "Wrap this command in an `if UP_EXTENSION` statement or add a /* Compatibility: UserPatch 1.5 */ comment at the top of the file"@)]
                } else {
                    Seq::empty()
                }
            } else if n == "nomad_resources"@ {
                if !spec_has_up_available(c, conditions) && c != Compatibility::HDEdition {
                    seq![warn_suggest(atom, "Nomad resources requires UserPatch 1.4 or HD Edition"@, "Wrap this command in an `if UP_AVAILABLE` statement or add a /* Compatibility: UserPatch 1.4 */ comment at the top of the file"@)]
                } else {
                    Seq::empty()
                }
            } else if n == "resource_delta"@ {
                if !spec_has_up_available(c, conditions) && !has_condition(conditions, "UP_EXTENSION"@) {
                    seq![warn_suggest(atom, "Resource deltas require UserPatch 1.4"@, "Wrap this command in an `if UP_AVAILABLE` statement or add a /* Compatibility: UserPatch 1.4 */ comment at the top of the file"@)]
                } else {
                    Seq::empty()
                }
            } else if n == "actor_area"@ || n == "actor_area_to_place_in"@ || n == "avoid_actor_area"@
                || n == "avoid_all_actor_areas"@ || n == "actor_area_radius"@ {
                if !spec_has_de(c, conditions) {
                    seq![warn_suggest(atom, "Actor areas are only supported in the Definitive Edition"@, "Add a /* Compatibility: Definitive Edition */ comment at the top of the file"@)]
                } else {
                    Seq::empty()
                }
            } else if n == "avoid_forest_zone"@ || n == "place_on_forest_zone"@ || n == "avoid_cliff_zone"@ {
                if !spec_has_de(c, conditions) {
                    seq![warn_suggest(atom, "Forest and cliff zones are only supported in the Definitive Edition"@, "Add a /* Compatibility: Definitive Edition */ comment at the top of the file"@)]
                } else {
                    Seq::empty()
                }
            } else if n == "second_object"@ {
                if !spec_has_de(c, conditions) {
                    seq![warn_suggest(atom, "second_object is only supported in the Definitive Edition"@, "Add a /* Compatibility: Definitive Edition */ comment at the top of the file"@)]
                } else {
                    Seq::empty()
                }
            } else {
                Seq::empty()
            }
        },
        _ => Seq::empty(),
    }
}

/// The `if` conditions after an atom: `if` adds its condition, `elseif` replaces the innermost
/// one, `else` replaces it with a blank, `endif` drops it.
pub open spec fn conditions_after(conditions: Seq<Seq<char>>, atom: Atom) -> Seq<Seq<char>> {
    let dropped = if conditions.len() > 0 {
        conditions.drop_last()
    } else {
        conditions
    };
    match atom.kind {
        AtomKind::If { condition, .. } => conditions.push(condition.value@),
        AtomKind::ElseIf { condition, .. } => dropped.push(condition.value@),
        AtomKind::Else { .. } => dropped.push(" "@),
        AtomKind::EndIf { .. } => dropped,
        _ => conditions,
    }
}

impl CompatibilityLint {
    /// The open `if` conditions, outermost first.
    pub closed spec fn conditions(&self) -> Seq<Seq<char>> {
        self.conditions@.map_values(|s: String| s@)
    }

    /// The lint, with no conditions yet.
    pub fn new() -> (r: Self)
        ensures
            r.conditions().len() == 0,
    {
        let r = CompatibilityLint { conditions: Vec::new() };
        assert(r.conditions() =~= Seq::<Seq<char>>::empty());
        r
    }

    /// The code of this lint's diagnostics.
    pub fn name(&self) -> (r: &'static str)
        ensures
            r@ == "compatibility"@,
    {
        "compatibility"
    }

    fn has_condition(&self, name: &str) -> (r: bool)
        ensures
            r == has_condition(self.conditions(), name@),
    {
        let mut i: usize = 0;
        while i < self.conditions.len()
            invariant
                i <= self.conditions@.len(),
                forall|j: int| 0 <= j < i ==> (#[trigger] self.conditions@[j])@ != name@,
            decreases self.conditions@.len() - i,
        {
            if str_eq(self.conditions[i].as_str(), name) {
                assert(self.conditions()[i as int] == name@);
                return true;
            }
            i = i + 1;
        }
        proof {
            if self.conditions().contains(name@) {
                let k = self.conditions().index_of(name@);
                assert(self.conditions@[k]@ == name@);
            }
        }
        false
    }

    fn has_up_extension(&self, state: &ParseState) -> (r: bool)
        ensures
            r == spec_has_up_extension(state.spec_compatibility(), self.conditions()),
    {
        if state.compatibility().at_least(Compatibility::UserPatch15) {
            return true;
        }
        self.has_condition("UP_EXTENSION")
    }

    fn has_up_available(&self, state: &ParseState) -> (r: bool)
        ensures
            r == spec_has_up_available(state.spec_compatibility(), self.conditions()),
    {
        if state.compatibility().at_least(Compatibility::UserPatch14) {
            return true;
        }
        self.has_condition("UP_AVAILABLE")
    }

    /// Track that an `if` checks `name`.
    pub fn add_define_check(&mut self, name: &str)
        ensures
            final(self).conditions() == old(self).conditions().push(name@),
    {
        let ghost before = self.conditions@;
        let s = String::from_str(name);
        self.conditions.push(s);
        assert(self.conditions() =~= before.map_values(|s: String| s@).push(name@));
    }

    fn pop_condition(&mut self)
        ensures
            final(self).conditions() == if old(self).conditions().len() > 0 {
                old(self).conditions().drop_last()
            } else {
                old(self).conditions()
            },
    {
        let ghost before = self.conditions@;
        if self.conditions.len() > 0 {
            self.conditions.pop();
            assert(self.conditions() =~= before.map_values(|s: String| s@).drop_last());
        }
    }

    fn warn(atom: &Atom, msg: &str, fix: &str) -> (r: Diagnostic)
        ensures
            r@ == warn_suggest(*atom, msg@, fix@),
    {
        Diagnostic::warning(atom.location, msg).suggest(Fix::new(atom.location, fix))
    }

    /// The diagnostics for one atom.
    pub fn lint_atom(&mut self, state: &ParseState, atom: &Atom) -> (r: Vec<Diagnostic>)
        ensures
            r@.map_values(|d: Diagnostic| d@) == compatibility_warnings(
                state.spec_compatibility(),
                old(self).conditions(),
                *atom,
            ),
            final(self).conditions() == conditions_after(old(self).conditions(), *atom),
    {
        let mut r: Vec<Diagnostic> = Vec::new();
        let compat = state.compatibility();
        let de = compat == Compatibility::DefinitiveEdition || self.has_condition("DE_AVAILABLE");
        if let AtomKind::Command { name, .. } = &atom.kind {
            let n = name.value;
            if str_eq(n, "effect_amount") || str_eq(n, "effect_percent") {
                if !self.has_up_extension(state) {
                    r.push(Self::warn(atom, "RMS Effects require UserPatch 1.5", "Wrap this command in an `if UP_EXTENSION` statement or add a /* Compatibility: UserPatch 1.5 */ comment at the top of the file"));
                }
            } else if str_eq(n, "direct_placement") {
                if !self.has_up_extension(state) {
                    r.push(Self::warn(atom, "Direct placement requires UserPatch 1.5 or Definitive Edition", "Wrap this command in an `if UP_EXTENSION` statement or add a /* Compatibility: UserPatch 1.5 */ comment at the top of the file"));
                }
            } else if str_eq(n, "nomad_resources") {
                if !self.has_up_available(state) && compat != Compatibility::HDEdition {
                    r.push(Self::warn(atom, "Nomad resources requires UserPatch 1.4 or HD Edition", "Wrap this command in an `if UP_AVAILABLE` statement or add a /* Compatibility: UserPatch 1.4 */ comment at the top of the file"));
                }
            } else if str_eq(n, "resource_delta") {
                if !self.has_up_available(state) && !self.has_condition("UP_EXTENSION") {
                    r.push(Self::warn(atom, "Resource deltas require UserPatch 1.4", "Wrap this command in an `if UP_AVAILABLE` statement or add a /* Compatibility: UserPatch 1.4 */ comment at the top of the file"));
                }
            } else if str_eq(n, "actor_area") || str_eq(n, "actor_area_to_place_in") || str_eq(n, "avoid_actor_area")
                || str_eq(n, "avoid_all_actor_areas") || str_eq(n, "actor_area_radius") {
                if !de {
                    r.push(Self::warn(atom, "Actor areas are only supported in the Definitive Edition", "Add a /* Compatibility: Definitive Edition */ comment at the top of the file"));
                }
            } else if str_eq(n, "avoid_forest_zone") || str_eq(n, "place_on_forest_zone") || str_eq(n, "avoid_cliff_zone") {
                if !de {
                    r.push(Self::warn(atom, "Forest and cliff zones are only supported in the Definitive Edition", "Add a /* Compatibility: Definitive Edition */ comment at the top of the file"));
                }
            } else if str_eq(n, "second_object") {
                if !de {
                    r.push(Self::warn(atom, "second_object is only supported in the Definitive Edition", "Add a /* Compatibility: Definitive Edition */ comment at the top of the file"));
                }
            }
        }
        assert(r@.map_values(|d: Diagnostic| d@) =~= compatibility_warnings(
            state.spec_compatibility(),
            old(self).conditions(),
            *atom,
        ));
        match &atom.kind {
            AtomKind::If { condition, .. } => self.add_define_check(condition.value),
            AtomKind::ElseIf { condition, .. } => {
                self.pop_condition();
                self.add_define_check(condition.value);
            },
            AtomKind::Else { .. } => {
                self.pop_condition();
                self.add_define_check(" ");
            },
            AtomKind::EndIf { .. } => {
                self.pop_condition();
            },
            _ => {},
        }
        r
    }
}

} // verus!

verus! {

/// A `second_object` command draws exactly one warning, "second_object is only supported in
/// the Definitive Edition", at the command, with the advice to target that edition, when the
/// script does not target the Definitive Edition and no enclosing `if DE_AVAILABLE` holds;
/// otherwise it draws none.
pub proof fn law_second_object_needs_de(c: Compatibility, conditions: Seq<Seq<char>>, atom: Atom)
    requires
        atom.kind matches AtomKind::Command { name, .. } && name.value@ == "second_object"@,
    ensures
        ({
            let ws = compatibility_warnings(c, conditions, atom);
            if c != Compatibility::DefinitiveEdition && !conditions.contains("DE_AVAILABLE"@) {
                &&& ws.len() == 1
                &&& ws[0].severity == Severity::Warning
                &&& ws[0].location == atom.location
                &&& ws[0].message == "second_object is only supported in the Definitive Edition"@
                &&& ws[0].suggestions == seq![
                    fix_view(
                        atom.location,
                        "Add a /* Compatibility: Definitive Edition */ comment at the top of the file"@,
                    ),
                ]
            } else {
                ws.len() == 0
            }
        }),
{
    reveal_strlit("second_object");
    reveal_strlit("effect_amount");
    reveal_strlit("effect_percent");
    reveal_strlit("direct_placement");
    reveal_strlit("nomad_resources");
    reveal_strlit("resource_delta");
    reveal_strlit("actor_area");
    reveal_strlit("actor_area_to_place_in");
    reveal_strlit("avoid_actor_area");
    reveal_strlit("avoid_all_actor_areas");
    reveal_strlit("actor_area_radius");
    reveal_strlit("avoid_forest_zone");
    reveal_strlit("place_on_forest_zone");
    reveal_strlit("avoid_cliff_zone");
    if let AtomKind::Command { name, .. } = atom.kind {
        let n = name.value@;
        assert(n[0] == 's');
        assert(n != "effect_amount"@) by { assert("effect_amount"@[0] == 'e'); }
        assert(n != "effect_percent"@) by { assert("effect_percent"@[0] == 'e'); }
        assert(n != "direct_placement"@) by { assert("direct_placement"@[0] == 'd'); }
        assert(n != "nomad_resources"@) by { assert("nomad_resources"@[0] == 'n'); }
        assert(n != "resource_delta"@) by { assert("resource_delta"@[0] == 'r'); }
        assert(n != "actor_area"@) by { assert("actor_area"@[0] == 'a'); }
        assert(n != "actor_area_to_place_in"@) by { assert("actor_area_to_place_in"@[0] == 'a'); }
        assert(n != "avoid_actor_area"@) by { assert("avoid_actor_area"@[0] == 'a'); }
        assert(n != "avoid_all_actor_areas"@) by { assert("avoid_all_actor_areas"@[0] == 'a'); }
        assert(n != "actor_area_radius"@) by { assert("actor_area_radius"@[0] == 'a'); }
        assert(n != "avoid_forest_zone"@) by { assert("avoid_forest_zone"@[0] == 'a'); }
        assert(n != "place_on_forest_zone"@) by { assert("place_on_forest_zone"@[0] == 'p'); }
        assert(n != "avoid_cliff_zone"@) by { assert("avoid_cliff_zone"@[0] == 'a'); }
        let ws = compatibility_warnings(c, conditions, atom);
        if c != Compatibility::DefinitiveEdition && !conditions.contains("DE_AVAILABLE"@) {
            assert(ws[0].suggestions =~= seq![
                fix_view(
                    atom.location,
                    "Add a /* Compatibility: Definitive Edition */ comment at the top of the file"@,
                ),
            ]);
        }
    }
}

/// The targets that have the UserPatch 1.5 features: UserPatch 1.5 and the levels above it, or
/// an enclosing `if UP_EXTENSION`.
pub open spec fn up15_features(c: Compatibility, conditions: Seq<Seq<char>>) -> bool {
    c == Compatibility::UserPatch15 || c == Compatibility::WololoKingdoms || c
        == Compatibility::DefinitiveEdition || conditions.contains("UP_EXTENSION"@)
}

/// The targets that have the UserPatch 1.4 features: UserPatch 1.4 and the levels above it, or
/// an enclosing `if UP_AVAILABLE`.
pub open spec fn up14_features(c: Compatibility, conditions: Seq<Seq<char>>) -> bool {
    c == Compatibility::UserPatch14 || c == Compatibility::UserPatch15 || c
        == Compatibility::WololoKingdoms || c == Compatibility::DefinitiveEdition
        || conditions.contains("UP_AVAILABLE"@)
}

/// What the compatibility lint says of each command that belongs to a later version: one
/// warning, at the command, exactly when the target lacks that version (and no enclosing `if`
/// provides it), and nothing for any other command or atom.
/// - RMS effects (`effect_amount`, `effect_percent`) and `direct_placement` need UserPatch 1.5;
/// - `nomad_resources` needs UserPatch 1.4 or the HD Edition;
/// - `resource_delta` needs UserPatch 1.4, or an enclosing `if UP_EXTENSION`;
/// - actor areas, forest and cliff zones, and `second_object` need the Definitive Edition.
pub proof fn law_version_features(c: Compatibility, conditions: Seq<Seq<char>>, atom: Atom)
    ensures
        ({
            let ws = compatibility_warnings(c, conditions, atom);
            let up15 = up15_features(c, conditions);
            let up14 = up14_features(c, conditions);
            let de = c == Compatibility::DefinitiveEdition || conditions.contains("DE_AVAILABLE"@);
            let up15_fix = "Wrap this command in an `if UP_EXTENSION` statement or add a /* Compatibility: UserPatch 1.5 */ comment at the top of the file"@;
            let up14_fix = "Wrap this command in an `if UP_AVAILABLE` statement or add a /* Compatibility: UserPatch 1.4 */ comment at the top of the file"@;
            let de_fix = "Add a /* Compatibility: Definitive Edition */ comment at the top of the file"@;
            match atom.kind {
                AtomKind::Command { name, .. } => {
                    let n = name.value@;
                    if n == "effect_amount"@ || n == "effect_percent"@ {
                        ws == if up15 { Seq::empty() } else {
                            seq![warn_suggest(atom, "RMS Effects require UserPatch 1.5"@, up15_fix)]
                        }
                    } else if n == "direct_placement"@ {
                        ws == if up15 { Seq::empty() } else {
                            seq![warn_suggest(atom, "Direct placement requires UserPatch 1.5 or Definitive Edition"@, up15_fix)]
                        }
                    } else if n == "nomad_resources"@ {
                        ws == if up14 || c == Compatibility::HDEdition { Seq::empty() } else {
                            seq![warn_suggest(atom, "Nomad resources requires UserPatch 1.4 or HD Edition"@, up14_fix)]
                        }
                    } else if n == "resource_delta"@ {
                        ws == if up14 || conditions.contains("UP_EXTENSION"@) { Seq::empty() } else {
                            seq![warn_suggest(atom, "Resource deltas require UserPatch 1.4"@, up14_fix)]
                        }
                    } else if n == "actor_area"@ || n == "actor_area_to_place_in"@ || n
                        == "avoid_actor_area"@ || n == "avoid_all_actor_areas"@ || n
                        == "actor_area_radius"@ {
                        ws == if de { Seq::empty() } else {
                            seq![warn_suggest(atom, "Actor areas are only supported in the Definitive Edition"@, de_fix)]
                        }
                    } else if n == "avoid_forest_zone"@ || n == "place_on_forest_zone"@ || n
                        == "avoid_cliff_zone"@ {
                        ws == if de { Seq::empty() } else {
                            seq![warn_suggest(atom, "Forest and cliff zones are only supported in the Definitive Edition"@, de_fix)]
                        }
                    } else if n == "second_object"@ {
                        ws == if de { Seq::empty() } else {
                            seq![warn_suggest(atom, "second_object is only supported in the Definitive Edition"@, de_fix)]
                        }
                    } else {
                        ws.len() == 0
                    }
                },
                _ => ws.len() == 0,
            }
        }),
{
    reveal_strlit("effect_amount");
    reveal_strlit("effect_percent");
    reveal_strlit("direct_placement");
    reveal_strlit("nomad_resources");
    reveal_strlit("resource_delta");
    reveal_strlit("actor_area");
    reveal_strlit("actor_area_to_place_in");
    reveal_strlit("avoid_actor_area");
    reveal_strlit("avoid_all_actor_areas");
    reveal_strlit("actor_area_radius");
    reveal_strlit("avoid_forest_zone");
    reveal_strlit("place_on_forest_zone");
    reveal_strlit("avoid_cliff_zone");
    reveal_strlit("second_object");
    assert("effect_amount"@.len() == 13 && "effect_amount"@[0] == 'e' && "effect_amount"@[6] == '_');
    assert("effect_percent"@.len() == 14 && "effect_percent"@[0] == 'e' && "effect_percent"@[6] == '_');
    assert("direct_placement"@.len() == 16 && "direct_placement"@[0] == 'd' && "direct_placement"@[6] == '_');
    assert("nomad_resources"@.len() == 15 && "nomad_resources"@[0] == 'n' && "nomad_resources"@[6] == 'r');
    assert("resource_delta"@.len() == 14 && "resource_delta"@[0] == 'r' && "resource_delta"@[6] == 'c');
    assert("actor_area"@.len() == 10 && "actor_area"@[0] == 'a' && "actor_area"@[6] == 'a');
    assert("actor_area_to_place_in"@.len() == 22 && "actor_area_to_place_in"@[0] == 'a' && "actor_area_to_place_in"@[6] == 'a');
    assert("avoid_actor_area"@.len() == 16 && "avoid_actor_area"@[0] == 'a' && "avoid_actor_area"@[6] == 'a');
    assert("avoid_all_actor_areas"@.len() == 21 && "avoid_all_actor_areas"@[0] == 'a' && "avoid_all_actor_areas"@[6] == 'a');
    assert("actor_area_radius"@.len() == 17 && "actor_area_radius"@[0] == 'a' && "actor_area_radius"@[6] == 'a');
    assert("avoid_forest_zone"@.len() == 17 && "avoid_forest_zone"@[0] == 'a' && "avoid_forest_zone"@[6] == 'f');
    assert("place_on_forest_zone"@.len() == 20 && "place_on_forest_zone"@[0] == 'p' && "place_on_forest_zone"@[6] == 'o');
    assert("avoid_cliff_zone"@.len() == 16 && "avoid_cliff_zone"@[0] == 'a' && "avoid_cliff_zone"@[6] == 'c');
    assert("second_object"@.len() == 13 && "second_object"@[0] == 's' && "second_object"@[6] == '_');
}

/// The conditions of enclosing `if`s as the lint tracks them: inside an `if X` branch, `X` holds;
/// an `elseif Y` makes `Y` hold in place of `X`; an `else` makes neither hold; and the `endif`
/// gives back the conditions from before the `if`.
pub proof fn law_if_conditions(cs: Seq<Seq<char>>, h: Word, x: Word, y: Word)
    ensures
        ({
            let opened = conditions_after(cs, Atom { kind: AtomKind::If { head: h, condition: x }, location: h.location });
            &&& opened.contains(x.value@)
            &&& opened.drop_last() == cs
            &&& conditions_after(opened, Atom { kind: AtomKind::EndIf { head: h }, location: h.location }) == cs
            &&& conditions_after(
                opened,
                Atom { kind: AtomKind::ElseIf { head: h, condition: y }, location: h.location },
            ) == cs.push(y.value@)
            &&& conditions_after(opened, Atom { kind: AtomKind::Else { head: h }, location: h.location }).drop_last() == cs
            &&& !conditions_after(opened, Atom { kind: AtomKind::Else { head: h }, location: h.location }).last().contains('_')
        }),
{
    reveal_strlit(" ");
    let opened = cs.push(x.value@);
    assert(opened[cs.len() as int] == x.value@);
    assert(opened.drop_last() =~= cs);
    let e = conditions_after(opened, Atom { kind: AtomKind::Else { head: h }, location: h.location });
    assert(e == cs.push(" "@));
    assert(!" "@.contains('_'));
}

} // verus!
