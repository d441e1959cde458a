//! Properties that hold across the functions of the library.

use crate::checker::{coded, effective_compatibility};
use crate::diagnostic::DiagnosticView;
use crate::formatter::{format_atoms, initial_state};
use crate::lints::arg_types::valid_rnd;
use crate::lints::attribute_case::{fix_case_view, has_upper_char};
use crate::parser::{lemma_parse_step_advances, lemma_parse_step_span, parse_from, parse_step, span, text, Atom, AtomKind, ParseStep};
use crate::decoding::file_text;
use crate::zip_rms::{gathered, is_include_name, is_script_name};
use crate::lsp::{spec_lsp_range, spec_position, spec_source_location};
use crate::rms_file::{at_location, is_zip_rms_name, lemma_line_start_bounds, lemma_location_unique, lemma_newlines_monotone, line_start, newlines_before, RMSFile};
use crate::similarity::{best_match, meant_index, THRESHOLD_BITS};
use crate::parser::same_atom;
use crate::state::{
    def_names, headers_post, insert_name, nesting_step, update_post, Compatibility, NestingKind,
    ParseState,
};
use crate::diagnostic::SourceLocation;
use crate::text::lower_chars;
use crate::tokens::is_token_name;
use crate::diagnostic::FileId;
use crate::text::lemma_bytes_determine_chars;
use crate::wordize::{spans, word_at, words_of, Word};
use vstd::prelude::*;
use vstd::utf8::*;

verus! {

/// The parser reads every word: when there are words, the last atom ends after the last word,
/// and there are at most as many atoms as words.
pub proof fn law_parser_reads_all_words(ws: Seq<Word>)
    ensures
        parse_from(ws, 0).len() <= ws.len(),
        ws.len() > 0 ==> parse_from(ws, 0).len() > 0 && parse_from(ws, 0).last().next == ws.len(),
{
    lemma_parse_from_reads(ws, 0);
}

proof fn lemma_parse_from_reads(ws: Seq<Word>, p: int)
    requires
        0 <= p <= ws.len(),
    ensures
        parse_from(ws, p).len() <= ws.len() - p,
        p < ws.len() ==> parse_from(ws, p).len() > 0 && parse_from(ws, p).last().next == ws.len(),
    decreases ws.len() - p,
{
    if p < ws.len() {
        lemma_parse_step_advances(ws, p);
        let step = parse_step(ws, p);
        lemma_parse_from_reads(ws, step.next);
        assert(parse_from(ws, p) == seq![step] + parse_from(ws, step.next));
        if step.next == ws.len() {
            assert(parse_from(ws, step.next) =~= Seq::<crate::parser::ParseStep>::empty());
        }
    }
}

/// The replacement that `is_valid_rnd` suggests is itself a valid `rnd(..)` call.
pub proof fn law_rnd_replacement_is_valid(s: Seq<char>)
    ensures
        valid_rnd(s).1 matches Some(t) ==> valid_rnd(t).0,
{
}

/// The spelling that the attribute-case lint suggests is a known token with no upper-case
/// letters.
pub proof fn law_fixed_case_is_token(v: Seq<char>)
    ensures
        fix_case_view(v) matches Some(f) ==> is_token_name(encode_utf8(f)) && !has_upper_char(f),
{
    if fix_case_view(v) is Some {
        let f = lower_chars(v);
        assert forall|i: int| 0 <= i < f.len() implies !('A' <= #[trigger] f[i] && f[i] <= 'Z') by {
            let c = v[i];
            if 'A' <= c && c <= 'Z' {
                assert(f[i] == ((c as u32) + 32) as char);
            }
        }
    }
}

/// The name suggested for a misspelt one is similar enough, and no other candidate is more
/// similar; of equally similar candidates, the last is suggested.
pub proof fn law_meant_is_best(scores: Seq<u64>)
    ensures
        meant_index(scores) matches Some(i) ==> {
            &&& 0 <= i < scores.len()
            &&& scores[i] >= THRESHOLD_BITS
            &&& forall|j: int| 0 <= j < i ==> scores[j] <= scores[i] || scores[j] < THRESHOLD_BITS
            &&& forall|j: int| i < j < scores.len() ==> scores[j] < scores[i] || scores[j] < THRESHOLD_BITS
        },
        meant_index(scores) is None ==> forall|j: int| 0 <= j < scores.len() ==> scores[j] < THRESHOLD_BITS,
{
    lemma_best_match(scores, scores.len() as int);
}

proof fn lemma_best_match(scores: Seq<u64>, n: int)
    requires
        0 <= n <= scores.len(),
    ensures
        best_match(scores, n) matches Some(i) ==> {
            &&& 0 <= i < n
            &&& scores[i] >= THRESHOLD_BITS
            &&& forall|j: int| 0 <= j < i ==> scores[j] <= scores[i] || scores[j] < THRESHOLD_BITS
            &&& forall|j: int| i < j < n ==> scores[j] < scores[i] || scores[j] < THRESHOLD_BITS
        },
        best_match(scores, n) is None ==> forall|j: int| 0 <= j < n ==> scores[j] < THRESHOLD_BITS,
    decreases n,
{
    if n > 0 {
        lemma_best_match(scores, n - 1);
    }
}

/// Every diagnostic that the checker passes on from a lint carries the lint's code.
pub proof fn law_lint_diagnostics_carry_code(out: Seq<DiagnosticView>, code: Seq<char>)
    ensures
        coded(out, code).len() == out.len(),
        forall|i: int| 0 <= i < out.len() ==> (#[trigger] coded(out, code)[i]).code == Some(code)
            && coded(out, code)[i].message == out[i].message && coded(out, code)[i].location
            == out[i].location && coded(out, code)[i].severity == out[i].severity,
{
}

/// A ZR@ map is checked for UserPatch 1.5 or a later version.
pub proof fn law_zip_maps_target_userpatch15(rms: &RMSFile, c: Compatibility)
    requires
        is_zip_rms_name(rms.files()[0].spec_name_bytes()),
    ensures
        effective_compatibility(rms, c).spec_level() >= Compatibility::UserPatch15.spec_level(),
{
}

/// A `{` and the `}` after it leave the nesting as it was, with no warning.
pub proof fn law_block_is_balanced(
    stack: Seq<(NestingKind, SourceLocation)>,
    open: Atom,
    close: Atom,
)
    requires
        open.kind is OpenBlock,
        close.kind is CloseBlock,
    ensures
        nesting_step(stack, open).1 is None,
        nesting_step(nesting_step(stack, open).0, close) == (stack, None::<DiagnosticView>),
{
    assert(stack.push((NestingKind::Brace, open.location)).drop_last() =~= stack);
}

/// An `if`, its `else` and the `endif` leave the nesting as it was, with no warning.
pub proof fn law_if_else_is_balanced(
    stack: Seq<(NestingKind, SourceLocation)>,
    open: Atom,
    branch: Atom,
    close: Atom,
)
    requires
        open.kind is If,
        branch.kind is Else,
        close.kind is EndIf,
    ensures
        nesting_step(stack, open).1 is None,
        nesting_step(nesting_step(stack, open).0, branch).1 is None,
        nesting_step(nesting_step(nesting_step(stack, open).0, branch).0, close) == (stack, None::<DiagnosticView>),
{
    let s1 = stack.push((NestingKind::If, open.location));
    assert(s1.drop_last() =~= stack);
    let s2 = s1.drop_last().push((NestingKind::Else, branch.location));
    assert(s2.drop_last() =~= stack);
}

/// A `start_random` with a `percent_chance` branch and its `end_random` leave the nesting as
/// it was, with no warning.
pub proof fn law_random_is_balanced(
    stack: Seq<(NestingKind, SourceLocation)>,
    open: Atom,
    branch: Atom,
    close: Atom,
)
    requires
        open.kind is StartRandom,
        branch.kind is PercentChance,
        close.kind is EndRandom,
    ensures
        nesting_step(stack, open).1 is None,
        nesting_step(nesting_step(stack, open).0, branch).1 is None,
        nesting_step(nesting_step(nesting_step(stack, open).0, branch).0, close) == (stack, None::<DiagnosticView>),
{
    let s1 = stack.push((NestingKind::StartRandom, open.location));
    let s2 = s1.push((NestingKind::PercentChance, branch.location));
    assert(s2.drop_last() =~= s1);
    assert(s1.drop_last() =~= stack);
}

/// After a `#define`, the name is defined; after a `#const`, the name has a value.
pub proof fn law_definitions_are_remembered(a: ParseState, b: ParseState, atom: Atom)
    requires
        update_post(a, b, atom),
    ensures
        atom.kind matches AtomKind::Define { name, .. } ==> b.spec_has_define(text(name)),
        atom.kind matches AtomKind::Const { name, .. } ==> b.spec_has_const(text(name)),
{
    let mid = choose|mid: ParseState|
        #![trigger headers_post(a, mid, atom)]
        headers_post(a, mid, atom) && {
            &&& b.spec_rms() == mid.spec_rms()
            &&& b.spec_compatibility() == mid.spec_compatibility()
            &&& b.spec_is_builtin_map() == mid.spec_is_builtin_map()
            &&& b.nesting_view() == mid.nesting_view()
            &&& b.builtin_const_names() == mid.builtin_const_names()
            &&& b.builtin_define_names() == mid.builtin_define_names()
            &&& b.option_define_names() == mid.option_define_names()
            &&& b.headers_done() == mid.headers_done()
            &&& match atom.kind {
                AtomKind::Section { .. } => b.spec_section() matches Some(s) && same_atom(s, atom)
                    && b.spec_consts() == mid.spec_consts() && b.spec_defines() == mid.spec_defines(),
                AtomKind::Define { name, .. } => b.spec_section() == mid.spec_section()
                    && b.spec_consts() == mid.spec_consts() && def_names(b.spec_defines())
                    == insert_name(def_names(mid.spec_defines()), text(name)),
                AtomKind::Const { name, .. } => b.spec_section() == mid.spec_section()
                    && b.spec_defines() == mid.spec_defines() && def_names(b.spec_consts())
                    == insert_name(def_names(mid.spec_consts()), text(name)),
                _ => b.spec_section() == mid.spec_section() && b.spec_consts() == mid.spec_consts()
                    && b.spec_defines() == mid.spec_defines(),
            }
        };
    match atom.kind {
        AtomKind::Define { name, .. } => {
            let names = def_names(mid.spec_defines());
            if !names.contains(text(name)) {
                assert(names.push(text(name))[names.len() as int] == text(name));
            }
        },
        AtomKind::Const { name, .. } => {
            let names = def_names(mid.spec_consts());
            if !names.contains(text(name)) {
                assert(names.push(text(name))[names.len() as int] == text(name));
            }
        },
        _ => {},
    }
}

/// A script without atoms formats to nothing.
pub proof fn law_format_empty(o: crate::formatter::FormatOptions, src: Seq<u8>)
    ensures
        format_atoms(o, src, Seq::<Atom>::empty()) == Seq::<char>::empty(),
{
}

/// Every offset of a text lies at exactly one line and column: the line and column that
/// `RMSFile::get_location` reports for it, and at which `RMSFile::get_byte_index` finds it again.
pub proof fn law_location_round_trip(b: Seq<u8>, i: int, j: int)
    requires
        0 <= i <= b.len(),
    ensures
        at_location(b, i, newlines_before(b, i), i - line_start(b, i)),
        at_location(b, j, newlines_before(b, i), i - line_start(b, i)) ==> j == i,
{
    if at_location(b, j, newlines_before(b, i), i - line_start(b, i)) {
        lemma_location_unique(b, i, j, newlines_before(b, i), i - line_start(b, i));
    }
}

/// A location of the map that has a range in the client's terms is found again from that
/// range: `to_source_location` undoes `to_lsp_range`.
pub proof fn law_lsp_range_round_trip(m: RMSFile, loc: SourceLocation)
    requires
        spec_lsp_range(m, loc) is Some,
    ensures
        spec_source_location(m, loc.file, spec_lsp_range(m, loc)->0) == Some(loc),
{
    let b = m.files()[loc.file.0 as int].spec_bytes();
    let r = spec_lsp_range(m, loc)->0;
    let (s, e) = (loc.start.0 as int, loc.end.0 as int);
    assert(spec_position(b, s) is Some && spec_position(b, e) is Some);
    assert(r.start == spec_position(b, s)->0 && r.end == spec_position(b, e)->0);
    lemma_newlines_monotone(b, 0, s);
    lemma_newlines_monotone(b, 0, e);
    lemma_line_start_bounds(b, s);
    lemma_line_start_bounds(b, e);
    let (ls, cs0, le, ce0) = (newlines_before(b, s), s - line_start(b, s), newlines_before(b, e), e - line_start(b, e));
    assert(r.start.line == ls as u32 && r.start.character == cs0 as u32);
    assert((ls as u32) as int == ls);
    assert((cs0 as u32) as int == cs0);
    assert(r.end.line == le as u32 && r.end.character == ce0 as u32);
    assert((le as u32) as int == le);
    assert((ce0 as u32) as int == ce0);
    assert(at_location(b, s, r.start.line as int, r.start.character as int));
    assert(at_location(b, e, r.end.line as int, r.end.character as int));
    let cs = choose|i: int| at_location(b, i, r.start.line as int, r.start.character as int);
    let ce = choose|i: int| at_location(b, i, r.end.line as int, r.end.character as int);
    lemma_location_unique(b, s, cs, r.start.line as int, r.start.character as int);
    lemma_location_unique(b, e, ce, r.end.line as int, r.end.character as int);
}

/// A map read from an archive or a folder that holds a script has a script as its main file:
/// the last script read goes to the front.
pub proof fn law_script_comes_first(entries: Seq<(Seq<char>, Seq<u8>)>, n: int, keep_all: bool, j: int)
    requires
        0 <= j < n <= entries.len(),
        is_script_name(entries[j].0),
    ensures
        gathered(entries, n, keep_all).len() > 0,
        is_script_name(gathered(entries, n, keep_all)[0].0),
    decreases n,
{
    if is_script_name(entries[n - 1].0) {
        let prev = gathered(entries, n - 1, keep_all);
        let f = (entries[n - 1].0, file_text(entries[n - 1].1));
        assert(gathered(entries, n, keep_all) == seq![f] + prev);
        assert((seq![f] + prev)[0] == f);
    } else {
        law_script_comes_first(entries, n - 1, keep_all, j);
        let prev = gathered(entries, n - 1, keep_all);
        if keep_all || is_include_name(entries[n - 1].0) {
            assert(prev.push((entries[n - 1].0, file_text(entries[n - 1].1)))[0] == prev[0]);
        }
    }
}

/// The words of a source are determined by it: any two splits that `words_of` admits have the
/// same words, at the same places, with the same text. So every contract that speaks of "the
/// words of the source" speaks of one sequence of words.
pub proof fn law_words_are_determined(a: Seq<Word>, b: Seq<Word>, file: FileId, src: Seq<u8>)
    requires
        words_of(a, file, src),
        words_of(b, file, src),
    ensures
        a.len() == b.len(),
        forall|i: int|
            0 <= i < a.len() ==> (#[trigger] a[i]).location == b[i].location && a[i].value@
                == b[i].value@,
{
    assert forall|i: int| 0 <= i < a.len() implies (#[trigger] a[i]).location == b[i].location
        && a[i].value@ == b[i].value@ by {
        assert(word_at(a[i], file, src, spans(src)[i].0, spans(src)[i].1));
        assert(word_at(b[i], file, src, spans(src)[i].0, spans(src)[i].1));
        lemma_bytes_determine_chars(a[i].value, b[i].value);
    }
}

/// The first word of the `k`th atom of `steps`, which start at word `p`.
pub open spec fn first_word(steps: Seq<ParseStep>, p: int, k: int) -> int {
    if k == 0 {
        p
    } else {
        steps[k - 1].next
    }
}

/// The atoms cut the words into runs, in order: the `k`th atom covers the words from
/// [`first_word`] up to the one before the next atom's first, and its location runs from the
/// start of its first word to the end of its last. The runs follow each other with no gap and
/// end with the last word, so every word lies in exactly one atom; and since the words of a
/// source come in order, the atoms' ranges come in source order and do not overlap.
pub proof fn law_atoms_partition_words(ws: Seq<Word>, p: int, file: FileId, src: Seq<u8>)
    requires
        0 <= p <= ws.len(),
        words_of(ws, file, src),
    ensures
        ({
            let steps = parse_from(ws, p);
            &&& forall|k: int|
                0 <= k < steps.len() ==> first_word(steps, p, k) < (#[trigger] steps[k]).next
                    && steps[k].location == span(ws, first_word(steps, p, k), steps[k].next - 1)
            &&& p < ws.len() ==> steps.len() > 0 && steps.last().next == ws.len()
            &&& forall|k: int|
                0 <= k < steps.len() - 1 ==> (#[trigger] steps[k]).location.end.0
                    <= steps[k + 1].location.start.0
        }),
    decreases ws.len() - p,
{
    if p < ws.len() {
        lemma_parse_step_advances(ws, p);
        lemma_parse_step_span(ws, p);
        let step = parse_step(ws, p);
        law_atoms_partition_words(ws, step.next, file, src);
        lemma_parse_from_reads(ws, step.next);
        let rest = parse_from(ws, step.next);
        let steps = parse_from(ws, p);
        assert(steps == seq![step] + rest);
        assert forall|k: int|
            0 <= k < steps.len() implies first_word(steps, p, k) < (#[trigger] steps[k]).next
                && steps[k].location == span(ws, first_word(steps, p, k), steps[k].next - 1) by {
            if k > 0 {
                assert(steps[k] == rest[k - 1]);
                assert(first_word(steps, p, k) == first_word(rest, step.next, k - 1));
            }
        }
        if step.next < ws.len() {
            assert(steps.last() == rest.last());
        } else {
            assert(rest =~= Seq::<ParseStep>::empty());
        }
        assert forall|k: int|
            0 <= k < steps.len() - 1 implies (#[trigger] steps[k]).location.end.0
                <= steps[k + 1].location.start.0 by {
            if k > 0 {
                assert(steps[k] == rest[k - 1] && steps[k + 1] == rest[k]);
            } else {
                assert(steps[1] == rest[0]);
                assert(first_word(rest, step.next, 0) == step.next);
                assert(rest[0].location.start == ws[step.next].location.start);
                assert(ws[step.next - 1].location.end.0 <= ws[step.next].location.start.0);
            }
        }
    }
}

/// What `k` successive calls of [`crate::parser::Parser::next`] give when the parser stands
/// at word `p`, each call as its contract states it: the step it reads, or `None` once the
/// words are used up.
pub open spec fn parser_calls(ws: Seq<Word>, p: int, k: nat) -> Seq<Option<ParseStep>>
    decreases k,
{
    if k == 0 {
        Seq::empty()
    } else if p >= ws.len() {
        seq![None] + parser_calls(ws, p, (k - 1) as nat)
    } else {
        seq![Some(parse_step(ws, p))] + parser_calls(ws, parse_step(ws, p).next, (k - 1) as nat)
    }
}

/// Successive calls of `Parser::next` give the atoms of the parse, in order, and then `None` on
/// every further call: the `i`th call gives the `i`th step of [`parse_from`], and once those are
/// used up, nothing. There are at most as many atoms as words left, and by
/// [`law_atoms_partition_words`] they cover the words in order, each word in exactly one.
pub proof fn law_parser_calls(ws: Seq<Word>, p: int, k: nat)
    requires
        0 <= p <= ws.len(),
    ensures
        parse_from(ws, p).len() <= ws.len() - p,
        parser_calls(ws, p, k).len() == k,
        forall|i: int|
            0 <= i < k ==> #[trigger] parser_calls(ws, p, k)[i] == (if i < parse_from(ws, p).len() {
                Some(parse_from(ws, p)[i])
            } else {
                None
            }),
    decreases k, ws.len() - p,
{
    lemma_parse_from_reads(ws, p);
    if k > 0 {
        let calls = parser_calls(ws, p, k);
        let steps = parse_from(ws, p);
        if p >= ws.len() {
            law_parser_calls(ws, p, (k - 1) as nat);
            let rest = parser_calls(ws, p, (k - 1) as nat);
            assert(steps =~= Seq::<ParseStep>::empty());
            assert forall|i: int| 0 <= i < k implies #[trigger] calls[i] == (if i < steps.len() {
                Some(steps[i])
            } else {
                None
            }) by {
                if i > 0 {
                    assert(calls[i] == rest[i - 1]);
                }
            }
        } else {
            lemma_parse_step_advances(ws, p);
            let step = parse_step(ws, p);
            law_parser_calls(ws, step.next, (k - 1) as nat);
            let rest = parser_calls(ws, step.next, (k - 1) as nat);
            assert(steps == seq![step] + parse_from(ws, step.next));
            assert forall|i: int| 0 <= i < k implies #[trigger] calls[i] == (if i < steps.len() {
                Some(steps[i])
            } else {
                None
            }) by {
                if i > 0 {
                    assert(calls[i] == rest[i - 1]);
                    if i < steps.len() {
                        assert(steps[i] == parse_from(ws, step.next)[i - 1]);
                    }
                }
            }
        }
    }
}

} // verus!
