//! The summary of a lint run that the command line prints, and the choice of the compatibility
//! level from its flags.

use crate::diagnostic::{Diagnostic, DiagnosticView, Severity};
use crate::state::Compatibility;
use vstd::prelude::*;

verus! {

/// How many errors and warnings a run found, and how many of them can be fixed automatically.
#[derive(Debug, Clone, Copy, PartialEq, Eq, Structural)]
pub struct ReportCounts {
    pub errors: usize,
    pub warnings: usize,
    pub fixable_errors: usize,
    pub fixable_warnings: usize,
}

/// Does the diagnostic have an automatic fix with a replacement?
pub open spec fn is_fixable(d: DiagnosticView) -> bool {
    exists|i: int| 0 <= i < d.fixes.len() && (#[trigger] d.fixes[i]).replacement is Some
}

/// Is the severity that of an error (a parse error counts as one)?
pub open spec fn is_error(s: Severity) -> bool {
    s == Severity::ParseError || s == Severity::Error
}

/// The counts for the first `n` diagnostics.
pub open spec fn counts_of(ds: Seq<DiagnosticView>, n: int) -> (int, int, int, int)
    decreases n,
{
    if n <= 0 {
        (0, 0, 0, 0)
    } else {
        let (e, w, fe, fw) = counts_of(ds, n - 1);
        let d = ds[n - 1];
        let err = is_error(d.severity);
        let warn = d.severity == Severity::Warning;
        let fix = is_fixable(d);
        (
            e + if err { 1int } else { 0int },
            w + if warn { 1int } else { 0int },
            fe + if err && fix { 1int } else { 0int },
            fw + if warn && fix { 1int } else { 0int },
        )
    }
}

/// Counts the errors, the warnings and the fixable ones among them. Hints count as neither.
pub fn tally(diagnostics: &[Diagnostic]) -> (r: ReportCounts)
    ensures
        (r.errors as int, r.warnings as int, r.fixable_errors as int, r.fixable_warnings as int)
            == counts_of(diagnostics@.map_values(|d: Diagnostic| d@), diagnostics@.len() as int),
{
    let ghost ds = diagnostics@.map_values(|d: Diagnostic| d@);
    let mut r = ReportCounts { errors: 0, warnings: 0, fixable_errors: 0, fixable_warnings: 0 };
    let mut i: usize = 0;
    while i < diagnostics.len()
        invariant
            i <= diagnostics@.len(),
            ds == diagnostics@.map_values(|d: Diagnostic| d@),
            (r.errors as int, r.warnings as int, r.fixable_errors as int, r.fixable_warnings as int)
                == counts_of(ds, i as int),
            r.errors <= i,
            r.warnings <= i,
            r.fixable_errors <= i,
            r.fixable_warnings <= i,
        decreases diagnostics@.len() - i,
    {
        let d = &diagnostics[i];
        assert(ds[i as int] == d@);
        let fixes = d.fixes();
        let mut fixable = false;
        let mut k: usize = 0;
        while k < fixes.len()
            invariant
                k <= fixes@.len(),
                fixes@.map_values(|f: crate::diagnostic::Fix| f@) == d@.fixes,
                fixable == exists|j: int| 0 <= j < k && (#[trigger] d@.fixes[j]).replacement is Some,
            decreases fixes@.len() - k,
        {
            assert(d@.fixes[k as int] == fixes@[k as int]@);
            if fixes[k].replacement().is_some() {
                fixable = true;
            }
            k = k + 1;
        }
        let severity = d.severity();
        let err = severity == Severity::ParseError || severity == Severity::Error;
        let warn = severity == Severity::Warning;
        if err {
            r.errors = r.errors + 1;
            if fixable {
                r.fixable_errors = r.fixable_errors + 1;
            }
        }
        if warn {
            r.warnings = r.warnings + 1;
            if fixable {
                r.fixable_warnings = r.fixable_warnings + 1;
            }
        }
        i = i + 1;
    }
    r
}

/// The compatibility flags of the command line.
#[derive(Debug, Clone, Copy, Default)]
pub struct CompatFlags {
    pub aoc: bool,
    pub userpatch14: bool,
    pub userpatch15: bool,
    pub hd_edition: bool,
    pub wololo_kingdoms: bool,
    pub definitive_edition: bool,
}

/// The compatibility level that the flags ask for: the first of Definitive Edition,
/// WololoKingdoms, HD Edition, UserPatch 1.4, UserPatch 1.5 and Conquerors whose flag is set, or
/// "all" when none is.
pub open spec fn flags_compatibility(f: CompatFlags) -> Compatibility {
    if f.definitive_edition {
        Compatibility::DefinitiveEdition
    } else if f.wololo_kingdoms {
        Compatibility::WololoKingdoms
    } else if f.hd_edition {
        Compatibility::HDEdition
    } else if f.userpatch14 {
        Compatibility::UserPatch14
    } else if f.userpatch15 {
        Compatibility::UserPatch15
    } else if f.aoc {
        Compatibility::Conquerors
    } else {
        Compatibility::All
    }
}

impl CompatFlags {
    /// The compatibility level that the flags ask for.
    pub fn to_compatibility(&self) -> (r: Compatibility)
        ensures
            r == flags_compatibility(*self),
    {
        if self.definitive_edition {
            Compatibility::DefinitiveEdition
        } else if self.wololo_kingdoms {
            Compatibility::WololoKingdoms
        } else if self.hd_edition {
            Compatibility::HDEdition
        } else if self.userpatch14 {
            Compatibility::UserPatch14
        } else if self.userpatch15 {
            Compatibility::UserPatch15
        } else if self.aoc {
            Compatibility::Conquerors
        } else {
            Compatibility::All
        }
    }
}

/// A replacement that may fix a problem: none, one that is safe to apply automatically, or one
/// that needs a human's judgement.
#[derive(Debug, Clone, PartialEq, Eq)]
pub enum AutoFixReplacement {
    NoReplacement,
    Safe(String),
    Unsafe(String),
}

impl AutoFixReplacement {
    /// Can the replacement be applied automatically?
    pub fn is_fixable(&self) -> (r: bool)
        ensures
            r == (*self is Safe),
    {
        match self {
            AutoFixReplacement::Safe(_) => true,
            _ => false,
        }
    }

    /// Is there a replacement at all, safe or not?
    pub fn is_fixable_unsafe(&self) -> (r: bool)
        ensures
            r == !(*self is NoReplacement),
    {
        match self {
            AutoFixReplacement::NoReplacement => false,
            _ => true,
        }
    }
}

} // verus!
