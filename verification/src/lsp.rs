//! What the language server decides: positions and ranges in the protocol's terms, diagnostics
//! and code actions for the client, incremental edits to an open document, signature help and
//! the framing of messages.

use crate::diagnostic::{ByteIndex, Diagnostic, DiagnosticView, FileId, Fix, FixView, Label, LabelView, Severity, SourceLocation};
use crate::fixes::{check_edits, edit_view, edits_ok, splice_all, spliced};
use crate::formatter::{format_atoms, FormatOptions};
use crate::parser::{atom_matches, parse_atoms, parse_from, Atom, AtomKind};
use crate::tokens::{lookup_token, spec_lookup, ArgType};
use crate::wordize::{words_of, Word};
use crate::casing::{lowercase_text, string_from_chars, to_lowercase};
use crate::text::{str_chars, str_eq, sub_chars, trim_char_vec, trim_chars};
use crate::rms_file::{at_location, lemma_location_unique, line_start, newlines_before, RMSFile};
use vstd::prelude::*;
use vstd::string::*;

verus! {

broadcast use vstd::seq::group_seq_axioms;

/// A position in a document: a line and a column in bytes, both counted from 0.
#[derive(Debug, Clone, Copy, PartialEq, Eq, Structural)]
pub struct Position {
    pub line: u32,
    pub character: u32,
}

/// A range of a document, from one position to another.
#[derive(Debug, Clone, Copy, PartialEq, Eq, Structural)]
pub struct LspRange {
    pub start: Position,
    pub end: Position,
}

/// The position of a byte offset of the bytes, when the offset lies within them and its line
/// and column fit in 32 bits.
pub open spec fn spec_position(b: Seq<u8>, i: int) -> Option<Position> {
    if 0 <= i <= b.len() && newlines_before(b, i) <= u32::MAX && i - line_start(b, i) <= u32::MAX {
        Some(Position { line: newlines_before(b, i) as u32, character: (i - line_start(b, i)) as u32 })
    } else {
        None
    }
}

/// The range that a location of the map covers, when both ends have a position.
pub open spec fn spec_lsp_range(m: RMSFile, loc: SourceLocation) -> Option<LspRange> {
    if loc.file.0 < m.files().len() {
        let b = m.files()[loc.file.0 as int].spec_bytes();
        match (spec_position(b, loc.start.0 as int), spec_position(b, loc.end.0 as int)) {
            (Some(s), Some(e)) => Some(LspRange { start: s, end: e }),
            _ => None,
        }
    } else {
        None
    }
}

/// The byte offset at a position, when one lies there.
pub open spec fn spec_offset(b: Seq<u8>, p: Position) -> Option<int> {
    if exists|i: int| at_location(b, i, p.line as int, p.character as int) {
        Some(choose|i: int| at_location(b, i, p.line as int, p.character as int))
    } else {
        None
    }
}

/// The location in a file of the map that a range covers, when both ends lie in the file.
pub open spec fn spec_source_location(m: RMSFile, file: FileId, r: LspRange) -> Option<SourceLocation> {
    if file.0 < m.files().len() {
        let b = m.files()[file.0 as int].spec_bytes();
        match (spec_offset(b, r.start), spec_offset(b, r.end)) {
            (Some(s), Some(e)) => Some(
                SourceLocation { file, start: ByteIndex(s as usize), end: ByteIndex(e as usize) },
            ),
            _ => None,
        }
    } else {
        None
    }
}

/// The position of a byte offset of a file of the map.
fn position_of(m: &RMSFile, file: FileId, index: ByteIndex) -> (r: Option<Position>)
    ensures
        r == (if file.0 < m.files().len() {
            spec_position(m.files()[file.0 as int].spec_bytes(), index.0 as int)
        } else {
            None::<Position>
        }),
{
    match m.get_location(file, index) {
        Some((line, column)) => {
            if line > 0xffff_ffff || column > 0xffff_ffff {
                None
            } else {
                Some(Position { line: line as u32, character: column as u32 })
            }
        },
        None => None,
    }
}

/// The range of the document that a location covers, in lines and columns.
pub fn to_lsp_range(m: &RMSFile, location: SourceLocation) -> (r: Option<LspRange>)
    ensures
        r == spec_lsp_range(*m, location),
{
    let start = position_of(m, location.file, location.start);
    let end = position_of(m, location.file, location.end);
    match (start, end) {
        (Some(s), Some(e)) => Some(LspRange { start: s, end: e }),
        _ => None,
    }
}

/// The byte offset at a position of a file of the map.
fn offset_of(m: &RMSFile, file: FileId, p: Position) -> (r: Option<ByteIndex>)
    ensures
        file.0 < m.files().len() ==> match spec_offset(m.files()[file.0 as int].spec_bytes(), p) {
            Some(i) => r == Some(ByteIndex(i as usize)),
            None => r is None,
        },
        file.0 >= m.files().len() ==> r is None,
{
    let r = m.get_byte_index(file, p.line, p.character);
    proof {
        if file.0 < m.files().len() {
            let b = m.files()[file.0 as int].spec_bytes();
            if let Some(ix) = r {
                assert(at_location(b, ix.0 as int, p.line as int, p.character as int));
                let c = choose|i: int| at_location(b, i, p.line as int, p.character as int);
                lemma_location_unique(b, ix.0 as int, c, p.line as int, p.character as int);
            }
        }
    }
    r
}

/// The location in a file of the map that a range of the document covers.
pub fn to_source_location(m: &RMSFile, file: FileId, range: LspRange) -> (r: Option<SourceLocation>)
    ensures
        r == spec_source_location(*m, file, range),
{
    let start = offset_of(m, file, range.start);
    let end = offset_of(m, file, range.end);
    match (start, end) {
        (Some(s), Some(e)) => Some(SourceLocation::new(file, s, e)),
        _ => None,
    }
}

/// How serious a diagnostic is, in the protocol's terms.
#[derive(Debug, Clone, Copy, PartialEq, Eq, Structural)]
pub enum LspSeverity {
    Error,
    Warning,
    Information,
}

/// Parse errors and errors are errors, warnings are warnings, and hints are information.
pub open spec fn spec_lsp_severity(s: Severity) -> LspSeverity {
    match s {
        Severity::ParseError => LspSeverity::Error,
        Severity::Error => LspSeverity::Error,
        Severity::Warning => LspSeverity::Warning,
        Severity::Hint => LspSeverity::Information,
    }
}

/// The protocol's severity for a diagnostic's severity.
pub fn lsp_severity(s: Severity) -> (r: LspSeverity)
    ensures
        r == spec_lsp_severity(s),
{
    match s {
        Severity::ParseError => LspSeverity::Error,
        Severity::Error => LspSeverity::Error,
        Severity::Warning => LspSeverity::Warning,
        Severity::Hint => LspSeverity::Information,
    }
}

/// Another place that a diagnostic points to, with a message.
pub struct RelatedInformation {
    pub file: FileId,
    pub range: LspRange,
    pub message: String,
}

/// A diagnostic as the client is told of it.
pub struct LspDiagnostic {
    pub range: LspRange,
    pub severity: LspSeverity,
    pub code: Option<String>,
    pub message: String,
    pub related: Vec<RelatedInformation>,
}

/// The content of a [`LspDiagnostic`].
pub struct LspDiagnosticView {
    pub range: LspRange,
    pub severity: LspSeverity,
    pub code: Option<Seq<char>>,
    pub message: Seq<char>,
    pub related: Seq<(FileId, LspRange, Seq<char>)>,
}

impl View for LspDiagnostic {
    type V = LspDiagnosticView;

    open spec fn view(&self) -> LspDiagnosticView {
        LspDiagnosticView {
            range: self.range,
            severity: self.severity,
            code: match self.code {
                Some(c) => Some(c@),
                None => None,
            },
            message: self.message@,
            related: self.related@.map_values(
                |i: RelatedInformation| (i.file, i.range, i.message@),
            ),
        }
    }
}

/// Do the location of a diagnostic and those of its labels all have a range?
pub open spec fn ranges_known(m: RMSFile, d: DiagnosticView) -> bool {
    &&& spec_lsp_range(m, d.location) is Some
    &&& forall|k: int| 0 <= k < d.labels.len() ==> (spec_lsp_range(m, #[trigger] d.labels[k].location) is Some)
}

/// The diagnostic for the client: its range, severity, code and message, and each label as
/// related information; nothing when a range is unknown.
pub open spec fn spec_lsp_diagnostic(m: RMSFile, d: DiagnosticView) -> Option<LspDiagnosticView> {
    if ranges_known(m, d) {
        Some(
            LspDiagnosticView {
                range: spec_lsp_range(m, d.location)->0,
                severity: spec_lsp_severity(d.severity),
                code: d.code,
                message: d.message,
                related: Seq::new(
                    d.labels.len(),
                    |k: int|
                        (
                            d.labels[k].location.file,
                            spec_lsp_range(m, d.labels[k].location)->0,
                            d.labels[k].message,
                        ),
                ),
            },
        )
    } else {
        None
    }
}

/// Convert a diagnostic for the client.
pub fn to_lsp_diagnostic(m: &RMSFile, d: &Diagnostic) -> (r: Option<LspDiagnostic>)
    ensures
        match spec_lsp_diagnostic(*m, d@) {
            Some(v) => r matches Some(x) && x@ == v,
            None => r is None,
        },
{
    let range = match to_lsp_range(m, d.location()) {
        Some(range) => range,
        None => return None,
    };
    let labels = d.labels();
    let mut related: Vec<RelatedInformation> = Vec::new();
    let mut k: usize = 0;
    while k < labels.len()
        invariant
            k <= labels@.len(),
            labels@.map_values(|l: Label| l@) == d@.labels,
            spec_lsp_range(*m, d@.location) is Some,
            related@.len() == k,
            forall|j: int|
                0 <= j < k ==> {
                    &&& spec_lsp_range(*m, #[trigger] d@.labels[j].location) is Some
                    &&& related@[j].file == d@.labels[j].location.file
                    &&& related@[j].range == spec_lsp_range(*m, d@.labels[j].location)->0
                    &&& related@[j].message@ == d@.labels[j].message
                },
        decreases labels@.len() - k,
    {
        let label = &labels[k];
        assert(d@.labels[k as int] == label@);
        let location = label.location();
        match to_lsp_range(m, location) {
            Some(r) => {
                related.push(
                    RelatedInformation {
                        file: location.file,
                        range: r,
                        message: String::from_str(label.message()),
                    },
                );
            },
            None => {
                assert(!ranges_known(*m, d@));
                return None;
            },
        }
        k = k + 1;
    }
    let code = match d.code() {
        Some(c) => Some(String::from_str(c)),
        None => None,
    };
    let r = LspDiagnostic {
        range,
        severity: lsp_severity(d.severity()),
        code,
        message: String::from_str(d.message()),
        related,
    };
    proof {
        let v = spec_lsp_diagnostic(*m, d@)->0;
        assert(r@.related =~= v.related);
    }
    Some(r)
}

/// A quick fix for the client: its title, the diagnostic it fixes, and the edit, a range of the
/// document and its new text.
pub struct CodeActionView {
    pub title: String,
    pub diagnostic: LspDiagnostic,
    pub range: LspRange,
    pub new_text: String,
}

/// The content of a [`CodeActionView`].
pub open spec fn action_view(a: CodeActionView) -> (Seq<char>, LspDiagnosticView, LspRange, Seq<char>) {
    (a.title@, a.diagnostic@, a.range, a.new_text@)
}

/// Does the diagnostic's range, end excluded, hold the start or the end of the location?
pub open spec fn touches(d: DiagnosticView, s: SourceLocation) -> bool {
    ||| d.location.start.0 <= s.start.0 && s.start.0 < d.location.end.0
    ||| d.location.start.0 <= s.end.0 && s.end.0 < d.location.end.0
}

/// The fixes among the first `n` that carry a replacement, in order.
pub open spec fn replaceable(fs: Seq<FixView>, n: int) -> Seq<FixView>
    decreases n,
{
    if n <= 0 {
        seq![]
    } else if fs[n - 1].replacement is Some {
        replaceable(fs, n - 1).push(fs[n - 1])
    } else {
        replaceable(fs, n - 1)
    }
}

/// The fixes, then the suggestions, of a diagnostic that carry a replacement.
pub open spec fn offered(d: DiagnosticView) -> Seq<FixView> {
    replaceable(d.fixes + d.suggestions, (d.fixes.len() + d.suggestions.len()) as int)
}

/// The quick fix that a fix of a diagnostic gives, when the diagnostic and the fix's location
/// have ranges.
pub open spec fn spec_action(m: RMSFile, d: DiagnosticView, f: FixView) -> Option<
    (Seq<char>, LspDiagnosticView, LspRange, Seq<char>),
> {
    match (spec_lsp_diagnostic(m, d), spec_lsp_range(m, f.location)) {
        (Some(dv), Some(r)) => Some((f.message, dv, r, f.replacement->0)),
        _ => None,
    }
}

/// The quick fixes, in order, of the first `n` diagnostics whose range holds an end of the
/// location: nothing when one of them has no range.
pub open spec fn spec_actions(m: RMSFile, ds: Seq<DiagnosticView>, s: SourceLocation, n: int) -> Option<
    Seq<(Seq<char>, LspDiagnosticView, LspRange, Seq<char>)>,
>
    decreases n,
{
    if n <= 0 {
        Some(seq![])
    } else {
        match spec_actions(m, ds, s, n - 1) {
            None => None,
            Some(prev) => if touches(ds[n - 1], s) {
                match actions_of(m, ds[n - 1], offered(ds[n - 1]), offered(ds[n - 1]).len() as int) {
                    Some(more) => Some(prev + more),
                    None => None,
                }
            } else {
                Some(prev)
            },
        }
    }
}

/// The quick fixes of the first `n` fixes of a diagnostic: nothing when one has no range.
pub open spec fn actions_of(m: RMSFile, d: DiagnosticView, fs: Seq<FixView>, n: int) -> Option<
    Seq<(Seq<char>, LspDiagnosticView, LspRange, Seq<char>)>,
>
    decreases n,
{
    if n <= 0 {
        Some(seq![])
    } else {
        match (actions_of(m, d, fs, n - 1), spec_action(m, d, fs[n - 1])) {
            (Some(prev), Some(a)) => Some(prev.push(a)),
            _ => None,
        }
    }
}

/// The fixes among the first `n` carrying a replacement are those among the first `n - 1`,
/// and the last one if it carries one.
proof fn lemma_replaceable_concat(a: Seq<FixView>, b: Seq<FixView>, n: int)
    requires
        0 <= n <= a.len(),
    ensures
        replaceable(a + b, n) == replaceable(a, n),
    decreases n,
{
    if n > 0 {
        lemma_replaceable_concat(a, b, n - 1);
        assert((a + b)[n - 1] == a[n - 1]);
    }
}

/// The fixes carrying a replacement among fewer fixes begin those among more.
proof fn lemma_replaceable_grows(all: Seq<FixView>, a: int, b: int)
    requires
        0 <= a <= b <= all.len(),
    ensures
        replaceable(all, a).len() <= replaceable(all, b).len(),
        forall|j: int| 0 <= j < replaceable(all, a).len() ==> replaceable(all, b)[j] == replaceable(all, a)[j],
    decreases b - a,
{
    if a < b {
        lemma_replaceable_grows(all, a, b - 1);
    }
}

/// Once a fix has no range, no longer run of fixes gives quick fixes.
proof fn lemma_actions_none_stays(m: RMSFile, d: DiagnosticView, fs: Seq<FixView>, n: int, n2: int)
    requires
        0 <= n <= n2,
        actions_of(m, d, fs, n) is None,
    ensures
        actions_of(m, d, fs, n2) is None,
    decreases n2 - n,
{
    if n < n2 {
        lemma_actions_none_stays(m, d, fs, n, n2 - 1);
    }
}

/// Once a diagnostic gives no quick fixes, no longer run of diagnostics does.
proof fn lemma_spec_actions_none_stays(m: RMSFile, ds: Seq<DiagnosticView>, s: SourceLocation, n: int, n2: int)
    requires
        0 <= n <= n2,
        spec_actions(m, ds, s, n) is None,
    ensures
        spec_actions(m, ds, s, n2) is None,
    decreases n2 - n,
{
    if n < n2 {
        lemma_spec_actions_none_stays(m, ds, s, n, n2 - 1);
    }
}

/// Add the quick fixes that a run of fixes of a diagnostic gives; false, and nothing known of
/// `out`, when one has no range.
fn push_actions(
    m: &RMSFile,
    d: &Diagnostic,
    fixes: &[Fix],
    out: &mut Vec<CodeActionView>,
    Ghost(all): Ghost<Seq<FixView>>,
    Ghost(base): Ghost<int>,
    Ghost(prefix): Ghost<Seq<(Seq<char>, LspDiagnosticView, LspRange, Seq<char>)>>,
) -> (ok: bool)
    requires
        0 <= base,
        base + fixes@.len() <= all.len(),
        forall|k: int| 0 <= k < fixes@.len() ==> all[base + k] == (#[trigger] fixes@[k])@,
        actions_of(*m, d@, replaceable(all, base), replaceable(all, base).len() as int) is Some,
        old(out)@.map_values(|a: CodeActionView| action_view(a)) == prefix + actions_of(
            *m,
            d@,
            replaceable(all, base),
            replaceable(all, base).len() as int,
        )->0,
    ensures
        ok == actions_of(
            *m,
            d@,
            replaceable(all, base + fixes@.len()),
            replaceable(all, base + fixes@.len()).len() as int,
        ) is Some,
        ok ==> final(out)@.map_values(|a: CodeActionView| action_view(a)) == prefix + actions_of(
            *m,
            d@,
            replaceable(all, base + fixes@.len()),
            replaceable(all, base + fixes@.len()).len() as int,
        )->0,
{
    let mut k: usize = 0;
    while k < fixes.len()
        invariant
            0 <= base,
            k <= fixes@.len(),
            base + fixes@.len() <= all.len(),
            forall|j: int| 0 <= j < fixes@.len() ==> all[base + j] == (#[trigger] fixes@[j])@,
            actions_of(*m, d@, replaceable(all, base + k), replaceable(all, base + k).len() as int) is Some,
            out@.map_values(|a: CodeActionView| action_view(a)) == prefix + actions_of(
                *m,
                d@,
                replaceable(all, base + k),
                replaceable(all, base + k).len() as int,
            )->0,
        decreases fixes@.len() - k,
    {
        let fix = &fixes[k];
        assert(all[base + k] == fix@);
        let ghost rs = replaceable(all, base + k);
        proof {
            lemma_actions_prefix(*m, d@, replaceable(all, base + k + 1), rs);
        }
        if let Some(replacement) = fix.replacement() {
            let diagnostic = match to_lsp_diagnostic(m, d) {
                Some(x) => x,
                None => {
                    proof {
                        lemma_no_more_actions(*m, d@, all, base, base + k, base + fixes@.len());
                    }
                    return false;
                },
            };
            let range = match to_lsp_range(m, fix.location()) {
                Some(r) => r,
                None => {
                    proof {
                        lemma_no_more_actions(*m, d@, all, base, base + k, base + fixes@.len());
                    }
                    return false;
                },
            };
            let ghost before = out@;
            out.push(
                CodeActionView {
                    title: String::from_str(fix.message()),
                    diagnostic,
                    range,
                    new_text: String::from_str(replacement),
                },
            );
            assert(out@.map_values(|a: CodeActionView| action_view(a)) =~= before.map_values(
                |a: CodeActionView| action_view(a),
            ).push(action_view(out@[out@.len() - 1])));
        }
        k = k + 1;
    }
    true
}

/// When the fix at `at` carries a replacement and gives no quick fix, no run of fixes through it
/// gives quick fixes.
proof fn lemma_no_more_actions(m: RMSFile, d: DiagnosticView, all: Seq<FixView>, base: int, at: int, end: int)
    requires
        0 <= base <= at < end <= all.len(),
        all[at].replacement is Some,
        spec_action(m, d, all[at]) is None,
    ensures
        actions_of(m, d, replaceable(all, end), replaceable(all, end).len() as int) is None,
{
    let rs = replaceable(all, at);
    let longer = replaceable(all, end);
    assert(replaceable(all, at + 1) == rs.push(all[at]));
    lemma_replaceable_grows(all, at + 1, end);
    lemma_actions_prefix(m, d, longer, rs.push(all[at]));
    assert(actions_of(m, d, rs.push(all[at]), rs.len() + 1int) is None);
    lemma_actions_none_stays(m, d, longer, rs.len() + 1int, longer.len() as int);
}

/// The quick fixes of the first `n` of some fixes depend only on those `n`.
proof fn lemma_actions_prefix(m: RMSFile, d: DiagnosticView, longer: Seq<FixView>, shorter: Seq<FixView>)
    requires
        shorter.len() <= longer.len(),
        forall|j: int| 0 <= j < shorter.len() ==> longer[j] == shorter[j],
    ensures
        actions_of(m, d, longer, shorter.len() as int) == actions_of(m, d, shorter, shorter.len() as int),
    decreases shorter.len(),
{
    if shorter.len() > 0 {
        let s1 = shorter.drop_last();
        lemma_actions_prefix(m, d, longer, s1);
        lemma_actions_prefix(m, d, shorter, s1);
    }
}

/// The quick fixes for a range of the main script: for each diagnostic whose range holds the
/// start or the end of it, in order, each fix and then each suggestion that carries a
/// replacement. `None` when the range does not lie in the script, or a diagnostic or fix that
/// would give a quick fix has no range.
pub fn code_actions(m: &RMSFile, diagnostics: &[Diagnostic], range: LspRange) -> (r: Option<
    Vec<CodeActionView>,
>)
    ensures
        match spec_source_location(*m, FileId(0), range) {
            None => r is None,
            Some(s) => match spec_actions(
                *m,
                diagnostics@.map_values(|d: Diagnostic| d@),
                s,
                diagnostics@.len() as int,
            ) {
                None => r is None,
                Some(v) => r matches Some(out) && out@.map_values(|a: CodeActionView| action_view(a))
                    == v,
            },
        },
{
    let s = match to_source_location(m, m.file_id(), range) {
        Some(s) => s,
        None => return None,
    };
    let ghost ds = diagnostics@.map_values(|d: Diagnostic| d@);
    let mut out: Vec<CodeActionView> = Vec::new();
    let mut i: usize = 0;
    while i < diagnostics.len()
        invariant
            i <= diagnostics@.len(),
            ds == diagnostics@.map_values(|d: Diagnostic| d@),
            spec_source_location(*m, FileId(0), range) == Some(s),
            spec_actions(*m, ds, s, i as int) is Some,
            out@.map_values(|a: CodeActionView| action_view(a)) == spec_actions(*m, ds, s, i as int)->0,
        decreases diagnostics@.len() - i,
    {
        let d = &diagnostics[i];
        assert(ds[i as int] == d@);
        let (start, end) = (d.location().start.0, d.location().end.0);
        let hit = (start <= s.start.0 && s.start.0 < end) || (start <= s.end.0 && s.end.0 < end);
        if hit {
            assert(touches(ds[i as int], s));
            let ghost prefix = out@.map_values(|a: CodeActionView| action_view(a));
            let ghost all = d@.fixes + d@.suggestions;
            let fixes = d.fixes();
            let suggestions = d.suggestions();
            proof {
                assert(replaceable(all, 0) =~= Seq::<FixView>::empty());
                assert(out@.map_values(|a: CodeActionView| action_view(a)) =~= prefix + Seq::empty());
                assert forall|k: int| 0 <= k < fixes@.len() implies all[0 + k] == (#[trigger] fixes@[k])@ by {
                    assert(fixes@.map_values(|f: Fix| f@)[k] == fixes@[k]@);
                }
            }
            if !push_actions(m, d, fixes, &mut out, Ghost(all), Ghost(0), Ghost(prefix)) {
                proof {
                    lemma_replaceable_grows(all, fixes@.len() as int, all.len() as int);
                    lemma_actions_prefix(*m, d@, offered(d@), replaceable(all, fixes@.len() as int));
                    lemma_actions_none_stays(
                        *m,
                        d@,
                        offered(d@),
                        replaceable(all, fixes@.len() as int).len() as int,
                        offered(d@).len() as int,
                    );
                    assert(offered(d@) == replaceable(all, all.len() as int));
                    assert(actions_of(*m, d@, offered(d@), offered(d@).len() as int) is None);
                    assert(spec_actions(*m, ds, s, i + 1) is None);
                    lemma_spec_actions_none_stays(*m, ds, s, i + 1, diagnostics@.len() as int);
                }
                return None;
            }
            proof {
                assert forall|k: int| 0 <= k < suggestions@.len() implies all[fixes@.len() + k] == (#[trigger] suggestions@[k])@ by {
                    assert(suggestions@.map_values(|f: Fix| f@)[k] == suggestions@[k]@);
                }
            }
            if !push_actions(m, d, suggestions, &mut out, Ghost(all), Ghost(fixes@.len() as int), Ghost(prefix)) {
                proof {
                    assert(offered(d@) == replaceable(all, all.len() as int));
                    assert(spec_actions(*m, ds, s, i + 1) is None);
                    lemma_spec_actions_none_stays(*m, ds, s, i + 1, diagnostics@.len() as int);
                }
                return None;
            }
        }
        i = i + 1;
    }
    Some(out)
}

/// A change to an open document: new text for a range, or for the whole document when there is
/// no range.
pub struct ContentChange {
    pub range: Option<LspRange>,
    pub text: String,
}

/// Why the changes to a document could not be applied.
#[derive(Debug, Clone, Copy, PartialEq, Eq, Structural)]
pub enum ChangeError {
    /// The changes are for an older version than the document has.
    VersionMismatch,
    /// A range does not lie in the document.
    OutOfBounds,
    /// The edits cannot be spliced: one starts inside an earlier one, or one does not start and
    /// end on character boundaries.
    Unspliceable,
}

/// The content of a [`ContentChange`].
pub open spec fn change_view(c: ContentChange) -> (Option<LspRange>, Seq<char>) {
    (c.range, c.text@)
}

/// The edits of the main script that the first `n` changes make, each range read in the
/// document as it was before any of them; a change without a range replaces the whole script.
/// Nothing when a range does not lie in the script.
pub open spec fn change_edits(m: RMSFile, cs: Seq<(Option<LspRange>, Seq<char>)>, n: int) -> Option<
    Seq<(usize, usize, Seq<char>)>,
>
    decreases n,
{
    if n <= 0 {
        Some(seq![])
    } else {
        match change_edits(m, cs, n - 1) {
            None => None,
            Some(prev) => match cs[n - 1].0 {
                Some(r) => match spec_source_location(m, FileId(0), r) {
                    Some(loc) => Some(prev.push((loc.start.0, loc.end.0, cs[n - 1].1))),
                    None => None,
                },
                None => Some(prev.push((0usize, m.files()[0].spec_bytes().len() as usize, cs[n - 1].1))),
            },
        }
    }
}

/// Once a range lies outside the script, no longer run of changes has edits.
proof fn lemma_change_edits_none_stays(m: RMSFile, cs: Seq<(Option<LspRange>, Seq<char>)>, n: int, n2: int)
    requires
        0 <= n <= n2,
        change_edits(m, cs, n) is None,
    ensures
        change_edits(m, cs, n2) is None,
    decreases n2 - n,
{
    if n < n2 {
        lemma_change_edits_none_stays(m, cs, n, n2 - 1);
    }
}

/// The new text of the main script after changes to the document, and the document's next
/// version. The changes are refused when they are for a version older than the document's;
/// each range is read in the document as it was before the changes, and all edits are spliced
/// into it at once.
pub fn apply_changes(m: &RMSFile, doc_version: i64, version: Option<i64>, changes: &[ContentChange]) -> (r:
    Result<(String, i64), ChangeError>)
    requires
        m.wf(),
        doc_version < i64::MAX,
    ensures
        ({
            let cs = changes@.map_values(|c: ContentChange| change_view(c));
            if version is Some && doc_version > version->0 {
                r == Err::<(String, i64), ChangeError>(ChangeError::VersionMismatch)
            } else {
                match change_edits(*m, cs, cs.len() as int) {
                    None => r == Err::<(String, i64), ChangeError>(ChangeError::OutOfBounds),
                    Some(es) => if edits_ok(m.files()[0].spec_bytes(), es) {
                        r matches Ok((text, next)) && text@ == spliced(m.files()[0].spec_source(), es)
                            && next == doc_version + 1
                    } else {
                        r == Err::<(String, i64), ChangeError>(ChangeError::Unspliceable)
                    },
                }
            }
        }),
{
    if let Some(v) = version {
        if doc_version > v {
            return Err(ChangeError::VersionMismatch);
        }
    }
    let ghost cs = changes@.map_values(|c: ContentChange| change_view(c));
    let source = m.main_source();
    let len = source.as_bytes().len();
    let mut edits: Vec<(usize, usize, String)> = Vec::new();
    let mut i: usize = 0;
    while i < changes.len()
        invariant
            i <= changes@.len(),
            cs == changes@.map_values(|c: ContentChange| change_view(c)),
            m.wf(),
            !(version is Some && doc_version > version->0),
            len == m.files()[0].spec_bytes().len(),
            change_edits(*m, cs, i as int) is Some,
            edits@.map_values(|e: (usize, usize, String)| edit_view(e)) == change_edits(*m, cs, i as int)->0,
        decreases changes@.len() - i,
    {
        let c = &changes[i];
        assert(cs[i as int] == change_view(*c));
        let ghost before = edits@;
        match c.range {
            Some(range) => match to_source_location(m, m.file_id(), range) {
                Some(loc) => {
                    edits.push((loc.start.0, loc.end.0, String::from_str(c.text.as_str())));
                },
                None => {
                    proof {
                        lemma_change_edits_none_stays(*m, cs, i + 1, cs.len() as int);
                    }
                    return Err(ChangeError::OutOfBounds);
                },
            },
            None => {
                edits.push((0, len, String::from_str(c.text.as_str())));
            },
        }
        assert(edits@.map_values(|e: (usize, usize, String)| edit_view(e)) =~= before.map_values(
            |e: (usize, usize, String)| edit_view(e),
        ).push(edit_view(edits@[edits@.len() - 1])));
        i = i + 1;
    }
    if !check_edits(source, edits.as_slice()) {
        return Err(ChangeError::Unspliceable);
    }
    Ok((splice_all(source, edits.as_slice()), doc_version + 1))
}

/// The command whose atom, ends included, holds the offset, first in the order of the atoms
/// from `i` on: its name, and the index of its first argument that holds the offset.
pub open spec fn command_at(atoms: Seq<Atom>, pos: int, i: int) -> Option<(Seq<char>, Option<int>)>
    decreases atoms.len() - i,
{
    if i < 0 || i >= atoms.len() {
        None
    } else if atoms[i].kind is Command && atoms[i].location.start.0 <= pos
        <= atoms[i].location.end.0 {
        Some((atoms[i].kind->Command_name.value@, argument_at(atoms[i].kind->arguments@, pos, 0)))
    } else {
        command_at(atoms, pos, i + 1)
    }
}

/// The index of the first argument from `k` on that holds the offset, ends included.
pub open spec fn argument_at(args: Seq<Word>, pos: int, k: int) -> Option<int>
    decreases args.len() - k,
{
    if k < 0 || k >= args.len() {
        None
    } else if args[k].location.start.0 <= pos <= args[k].location.end.0 {
        Some(k)
    } else {
        argument_at(args, pos, k + 1)
    }
}

/// The command at an offset of a script, for signature help: the name of the first command
/// whose atom holds the offset, and the index of the argument that holds it, if one does.
#[verifier::spinoff_prover]
pub fn find_command_at(source: &str, position: ByteIndex) -> (r: Option<(String, Option<usize>)>)
    ensures
        exists|ws: Seq<Word>, atoms: Seq<Atom>|
            #![trigger words_of(ws, FileId(0), source.spec_bytes()), command_at(atoms, position.0 as int, 0)]
            {
                &&& words_of(ws, FileId(0), source.spec_bytes())
                &&& atoms.len() == parse_from(ws, 0).len()
                &&& forall|i: int|
                    0 <= i < atoms.len() ==> atom_matches(
                        #[trigger] atoms[i],
                        parse_from(ws, 0)[i],
                        ws,
                        source.spec_bytes(),
                    )
                &&& match command_at(atoms, position.0 as int, 0) {
                    Some((name, arg)) => r matches Some((n, a)) && n@ == name && match arg {
                        Some(k) => a == Some(k as usize),
                        None => a is None,
                    },
                    None => r is None,
                }
            },
{
    let atoms = parse_atoms(source);
    let pos = position.0;
    let mut i: usize = 0;
    while i < atoms.len()
        invariant
            i <= atoms@.len(),
            pos == position.0,
            command_at(atoms@, pos as int, 0) == command_at(atoms@, pos as int, i as int),
            exists|ws: Seq<Word>|
                #![trigger words_of(ws, FileId(0), source.spec_bytes())]
                {
                    &&& words_of(ws, FileId(0), source.spec_bytes())
                    &&& atoms@.len() == parse_from(ws, 0).len()
                    &&& forall|i: int|
                        0 <= i < atoms@.len() ==> atom_matches(
                            #[trigger] atoms@[i],
                            parse_from(ws, 0)[i],
                            ws,
                            source.spec_bytes(),
                        )
                },
        decreases atoms@.len() - i,
    {
        let atom = &atoms[i];
        if let AtomKind::Command { name, arguments } = &atom.kind {
            if atom.location.start.0 <= pos && pos <= atom.location.end.0 {
                let args = arguments.as_slice();
                assert(args@ == arguments@);
                let arg = argument_index(args, pos);
                assert(command_at(atoms@, pos as int, i as int) == Some(
                    (name.value@, argument_at(arguments@, pos as int, 0)),
                ));
                proof {
                    let ws = choose|ws: Seq<Word>|
                        {
                            &&& words_of(ws, FileId(0), source.spec_bytes())
                            &&& atoms@.len() == parse_from(ws, 0).len()
                            &&& forall|i: int|
                                0 <= i < atoms@.len() ==> atom_matches(
                                    #[trigger] atoms@[i],
                                    parse_from(ws, 0)[i],
                                    ws,
                                    source.spec_bytes(),
                                )
                        };
                    assert(words_of(ws, FileId(0), source.spec_bytes()));
                }
                let text = String::from_str(name.value);
                assert(pos == position.0);
                let r = Some((text, arg));
                assert(r matches Some((t, _)) && t@ == name.value@);
                return r;
            }
        }
        i = i + 1;
    }
    proof {
        let ws = choose|ws: Seq<Word>|
            {
                &&& words_of(ws, FileId(0), source.spec_bytes())
                &&& atoms@.len() == parse_from(ws, 0).len()
                &&& forall|i: int|
                    0 <= i < atoms@.len() ==> atom_matches(
                        #[trigger] atoms@[i],
                        parse_from(ws, 0)[i],
                        ws,
                        source.spec_bytes(),
                    )
            };
        assert(words_of(ws, FileId(0), source.spec_bytes()));
        assert(command_at(atoms@, pos as int, 0) is None);
    }
    None
}

/// The index of the first argument that holds the offset, ends included.
fn argument_index(args: &[Word], pos: usize) -> (r: Option<usize>)
    ensures
        match argument_at(args@, pos as int, 0) {
            Some(k) => r == Some(k as usize),
            None => r is None,
        },
{
    let mut k: usize = 0;
    while k < args.len()
        invariant
            k <= args@.len(),
            argument_at(args@, pos as int, 0) == argument_at(args@, pos as int, k as int),
        decreases args@.len() - k,
    {
        let w = &args[k];
        if w.location.start.0 <= pos && pos <= w.location.end.0 {
            return Some(k);
        }
        k = k + 1;
    }
    None
}

/// The name of an argument type, as signatures show it.
pub open spec fn spec_arg_type_name(t: ArgType) -> Seq<char> {
    match t {
        ArgType::Word => "Word"@,
        ArgType::Number => "Number"@,
        ArgType::Token => "Token"@,
        ArgType::OptionalToken => "OptionalToken"@,
        ArgType::Filename => "Filename"@,
    }
}

/// The name of an argument type.
pub fn arg_type_name(t: ArgType) -> (r: &'static str)
    ensures
        r@ == spec_arg_type_name(t),
{
    match t {
        ArgType::Word => "Word",
        ArgType::Number => "Number",
        ArgType::Token => "Token",
        ArgType::OptionalToken => "OptionalToken",
        ArgType::Filename => "Filename",
    }
}

/// The label of the parameter at `index` of a command's signature: its name, followed by `:` and
/// the type the command takes there when the command is a known token with a type there.
pub open spec fn spec_parameter_label(command: Seq<u8>, index: int, name: Seq<char>) -> Seq<char> {
    match spec_lookup(command) {
        Some(info) => match info.arg_types[index] {
            Some(t) => name + ":"@ + spec_arg_type_name(t),
            None => name,
        },
        None => name,
    }
}

/// The label of a parameter of a command's signature.
pub fn parameter_label(command: &str, index: u8, name: &str) -> (r: String)
    requires
        spec_lookup(command.spec_bytes()) is Some ==> index < 4,
    ensures
        r@ == spec_parameter_label(command.spec_bytes(), index as int, name@),
{
    match lookup_token(command.as_bytes()) {
        Some(token) => match token.arg_type(index) {
            Some(t) => crate::lints::concat3(name, ":", arg_type_name(*t)),
            None => String::from_str(name),
        },
        None => String::from_str(name),
    }
}

/// The label of a whole signature: the command's name, then each parameter's label after a
/// space.
pub open spec fn spec_signature_label(command: Seq<char>, params: Seq<Seq<char>>, n: int) -> Seq<char>
    decreases n,
{
    if n <= 0 {
        command
    } else {
        spec_signature_label(command, params, n - 1) + " "@ + params[n - 1]
    }
}

/// The label of a signature from the command's name and its parameters' labels.
pub fn signature_label(command: &str, params: &[String]) -> (r: String)
    ensures
        r@ == spec_signature_label(command@, params@.map_values(|p: String| p@), params@.len() as int),
{
    let ghost ps = params@.map_values(|p: String| p@);
    let mut label = String::from_str(command);
    let mut i: usize = 0;
    while i < params.len()
        invariant
            i <= params@.len(),
            ps == params@.map_values(|p: String| p@),
            label@ == spec_signature_label(command@, ps, i as int),
        decreases params@.len() - i,
    {
        assert(ps[i as int] == params@[i as int]@);
        label = crate::lints::concat3(label.as_str(), " ", params[i].as_str());
        i = i + 1;
    }
    label
}

/// The edit that formats a document: the whole main script, replaced by its formatted text.
/// `None` when the script's range is unknown.
pub fn format_edit(m: &RMSFile, options: FormatOptions) -> (r: Option<(LspRange, String)>)
    requires
        m.wf(),
    ensures
        match spec_lsp_range(*m, SourceLocation {
            file: FileId(0),
            start: ByteIndex(0),
            end: ByteIndex(m.files()[0].spec_bytes().len() as usize),
        }) {
            Some(range) => r matches Some((rg, text)) && rg == range && exists|ws: Seq<Word>, atoms: Seq<Atom>|
                #![trigger format_atoms(options, m.files()[0].spec_bytes(), atoms), words_of(ws, FileId(0), m.files()[0].spec_bytes())]
                {
                    &&& words_of(ws, FileId(0), m.files()[0].spec_bytes())
                    &&& atoms.len() == parse_from(ws, 0).len()
                    &&& forall|i: int|
                        0 <= i < atoms.len() ==> atom_matches(
                            #[trigger] atoms[i],
                            parse_from(ws, 0)[i],
                            ws,
                            m.files()[0].spec_bytes(),
                        )
                    &&& text@ == format_atoms(options, m.files()[0].spec_bytes(), atoms)
                },
            None => r is None,
        },
{
    let source = m.main_source();
    let location = SourceLocation::new(m.file_id(), ByteIndex(0), ByteIndex(source.as_bytes().len()));
    let range = match to_lsp_range(m, location) {
        Some(range) => range,
        None => return None,
    };
    Some((range, crate::formatter::format(source, options)))
}

/// What a header line of a message says.
#[derive(Debug, Clone, Copy, PartialEq, Eq, Structural)]
pub enum Header {
    /// The empty line that ends the headers.
    End,
    /// The length in bytes of the content that follows the headers.
    ContentLength(usize),
    /// Another header, such as the content type.
    Other,
}

/// Why a header line could not be read.
#[derive(Debug, Clone, Copy, PartialEq, Eq, Structural)]
pub enum HeaderError {
    /// The line is not a name and a value separated by one `": "`.
    Malformed,
    /// The content length is not a number.
    NotANumber,
}

/// Does `": "` start at `i`?
pub open spec fn separator_at(s: Seq<char>, i: int) -> bool {
    0 <= i && i + 1 < s.len() && s[i] == ':' && s[i + 1] == ' '
}

/// `": "` starts at `p` and nowhere else.
pub open spec fn single_separator(s: Seq<char>, p: int) -> bool {
    separator_at(s, p) && forall|q: int| #[trigger] separator_at(s, q) ==> q == p
}

/// Are all the characters decimal digits, and is there one at least?
pub open spec fn decimal_digits(s: Seq<char>) -> bool {
    s.len() > 0 && forall|i: int| 0 <= i < s.len() ==> '0' <= #[trigger] s[i] <= '9'
}

/// The number that decimal digits write.
pub open spec fn digits_number(s: Seq<char>) -> int
    decreases s.len(),
{
    if s.len() == 0 {
        0
    } else {
        digits_number(s.drop_last()) * 10 + (s.last() as u32 - '0' as u32)
    }
}

/// `usize::from_str_radix` in base 10: an optional `+`, then decimal digits whose number fits.
pub open spec fn spec_parse_length(s: Seq<char>) -> Option<usize> {
    let d = if s.len() > 0 && s[0] == '+' {
        s.drop_first()
    } else {
        s
    };
    if decimal_digits(d) && digits_number(d) <= usize::MAX {
        Some(digits_number(d) as usize)
    } else {
        None
    }
}

/// What a header line says: the end of the headers for an empty line; else, when the line is
/// a name and a value separated by one `": "`, the content length for a name that is
/// `content-length` in lower case (its value, trimmed, must be a number), and another header
/// for any other name.
pub open spec fn spec_header(line: Seq<char>) -> Result<Header, HeaderError> {
    if line == "\r\n"@ {
        Ok(Header::End)
    } else if exists|p: int| single_separator(line, p) {
        let p = choose|p: int| single_separator(line, p);
        if lowercase_text(line.take(p)) == "content-length"@ {
            match spec_parse_length(trim_chars(line.skip(p + 2))) {
                Some(n) => Ok(Header::ContentLength(n)),
                None => Err(HeaderError::NotANumber),
            }
        } else {
            Ok(Header::Other)
        }
    } else {
        Err(HeaderError::Malformed)
    }
}

/// Digits write a number that is not negative.
proof fn lemma_digits_nonneg(s: Seq<char>)
    requires
        forall|i: int| 0 <= i < s.len() ==> '0' <= #[trigger] s[i] <= '9',
    ensures
        digits_number(s) >= 0,
    decreases s.len(),
{
    if s.len() > 0 {
        assert forall|i: int| 0 <= i < s.drop_last().len() implies '0' <= #[trigger] s.drop_last()[i] <= '9' by {
            assert(s.drop_last()[i] == s[i]);
        }
        lemma_digits_nonneg(s.drop_last());
        assert('0' <= s.last() <= '9');
    }
}

/// Digits never write a smaller number when more follow.
proof fn lemma_digits_grow(s: Seq<char>, a: int, b: int)
    requires
        0 <= a <= b <= s.len(),
        forall|i: int| 0 <= i < s.len() ==> '0' <= #[trigger] s[i] <= '9',
    ensures
        digits_number(s.take(a)) <= digits_number(s.take(b)),
    decreases b - a,
{
    if a < b {
        lemma_digits_grow(s, a, b - 1);
        assert(s.take(b).drop_last() =~= s.take(b - 1));
        assert forall|i: int| 0 <= i < s.take(b - 1).len() implies '0' <= #[trigger] s.take(b - 1)[i] <= '9' by {
            assert(s.take(b - 1)[i] == s[i]);
        }
        lemma_digits_nonneg(s.take(b - 1));
        assert(s.take(b).last() == s[b - 1]);
    }
}

/// Parse a content length as `usize::from_str_radix` does in base 10.
fn parse_length(s: &[char]) -> (r: Option<usize>)
    ensures
        r == spec_parse_length(s@),
{
    let start: usize = if s.len() > 0 && s[0] == '+' {
        1
    } else {
        0
    };
    let ghost d = if s@.len() > 0 && s@[0] == '+' {
        s@.drop_first()
    } else {
        s@
    };
    assert(d =~= s@.skip(start as int));
    if start >= s.len() {
        return None;
    }
    let mut n: usize = 0;
    let mut i: usize = start;
    while i < s.len()
        invariant
            start <= i <= s@.len(),
            start < s@.len(),
            d == (if s@.len() > 0 && s@[0] == '+' {
                s@.drop_first()
            } else {
                s@
            }),
            d =~= s@.skip(start as int),
            forall|k: int| 0 <= k < i - start ==> '0' <= #[trigger] d[k] <= '9',
            n == digits_number(d.take(i - start)),
        decreases s@.len() - i,
    {
        let c = s[i];
        assert(d[i - start] == c);
        if !('0' <= c && c <= '9') {
            assert(!decimal_digits(d));
            return None;
        }
        let digit = (c as u32 - '0' as u32) as usize;
        assert(d.take(i - start + 1).drop_last() =~= d.take(i - start));
        let next = match n.checked_mul(10) {
            Some(m) => m.checked_add(digit),
            None => None,
        };
        match next {
            Some(v) => {
                n = v;
            },
            None => {
                proof {
                    if decimal_digits(d) {
                        lemma_digits_grow(d, i - start + 1, d.len() as int);
                        assert(d.take(d.len() as int) =~= d);
                    }
                }
                return None;
            },
        }
        i = i + 1;
    }
    assert(d.take(d.len() as int) =~= d);
    Some(n)
}

/// Read a header line of a message, as it was read, line feed included.
pub fn parse_header(line: &str) -> (r: Result<Header, HeaderError>)
    ensures
        r == spec_header(line@),
{
    if str_eq(line, "\r\n") {
        return Ok(Header::End);
    }
    let chars = str_chars(line);
    let mut found: Option<usize> = None;
    let mut i: usize = 0;
    while i < chars.len()
        invariant
            chars@ == line@,
            line@ != "\r\n"@,
            i <= chars@.len(),
            match found {
                Some(p) => separator_at(line@, p as int) && p < i && forall|q: int|
                    0 <= q < i && #[trigger] separator_at(line@, q) ==> q == p,
                None => forall|q: int| 0 <= q < i ==> !#[trigger] separator_at(line@, q),
            },
        decreases chars@.len() - i,
    {
        if i + 1 < chars.len() && chars[i] == ':' && chars[i + 1] == ' ' {
            if found.is_some() {
                proof {
                    let p0 = found->0;
                    assert(separator_at(line@, i as int));
                    assert forall|p: int| !single_separator(line@, p) by {
                        if single_separator(line@, p) {
                            assert(separator_at(line@, p0 as int));
                        }
                    }
                }
                return Err(HeaderError::Malformed);
            }
            found = Some(i);
        }
        i = i + 1;
    }
    let p = match found {
        Some(p) => p,
        None => {
            proof {
                assert forall|q: int| !separator_at(line@, q) by {
                    if separator_at(line@, q) {
                        assert(q < i);
                    }
                }
            }
            return Err(HeaderError::Malformed);
        },
    };
    proof {
        assert forall|q: int| #[trigger] separator_at(line@, q) implies q == p by {
            if separator_at(line@, q) {
                assert(q < i);
            }
        }
        assert(single_separator(line@, p as int));
        let c = choose|p: int| single_separator(line@, p);
        assert(c == p);
    }
    let name = string_from_chars(sub_chars(chars.as_slice(), 0, p).as_slice());
    let lower = to_lowercase(name.as_str());
    if !str_eq(lower.as_str(), "content-length") {
        return Ok(Header::Other);
    }
    let value = trim_char_vec(sub_chars(chars.as_slice(), p + 2, chars.len()).as_slice());
    proof {
        assert(line@.take(p as int) =~= line@.subrange(0, p as int));
        assert(line@.skip(p + 2) =~= line@.subrange(p + 2, line@.len() as int));
    }
    match parse_length(value.as_slice()) {
        Some(n) => Ok(Header::ContentLength(n)),
        None => Err(HeaderError::NotANumber),
    }
}

} // verus!
