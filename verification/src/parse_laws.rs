//! Which statements the words of a script begin.

use crate::parser::{
    parse_step, span, spec_peek_arg, text, AtomShape, ParseError, ParseErrorKind, ParseStep,
};
use crate::text::{lower_byte, lower_bytes};
use crate::wordize::Word;
use vstd::prelude::*;
use vstd::string::*;

verus! {

/// What the parse gives for a word that begins a statement (see [`law_keywords_parse`]).
pub open spec fn keyword_step_ok(ws: Seq<Word>, p: int) -> bool {
    let low = lower_bytes(text(ws[p]));
    let step = parse_step(ws, p);
    let arg = spec_peek_arg(ws, p + 1);
    let missing = |kind: ParseErrorKind| ParseStep {
        shape: AtomShape::Other { value: p },
        location: ws[p].location,
        errors: seq![ParseError { kind, location: ws[p].location }],
        next: p + 1,
    };
    &&& low == "{".spec_bytes() ==> step.shape == AtomShape::OpenBlock { head: p } && step.next == p + 1
    &&& low == "}".spec_bytes() ==> step.shape == AtomShape::CloseBlock { head: p } && step.next == p + 1
    &&& low == "else".spec_bytes() ==> step.shape == AtomShape::Else { head: p } && step.next == p + 1
    &&& low == "endif".spec_bytes() ==> step.shape == AtomShape::EndIf { head: p } && step.next == p + 1
    &&& low == "start_random".spec_bytes() ==> step.shape == AtomShape::StartRandom { head: p } && step.next == p + 1
    &&& low == "end_random".spec_bytes() ==> step.shape == AtomShape::EndRandom { head: p } && step.next == p + 1
    &&& low == "if".spec_bytes() ==> step == if arg {
        ParseStep {
            shape: AtomShape::If { head: p, condition: p + 1 },
            location: span(ws, p, p + 1),
            errors: Seq::empty(),
            next: p + 2,
        }
    } else {
        missing(ParseErrorKind::MissingIfCondition)
    }
    &&& low == "elseif".spec_bytes() ==> step == if arg {
        ParseStep {
            shape: AtomShape::ElseIf { head: p, condition: p + 1 },
            location: span(ws, p, p + 1),
            errors: Seq::empty(),
            next: p + 2,
        }
    } else {
        missing(ParseErrorKind::MissingIfCondition)
    }
    &&& low == "percent_chance".spec_bytes() ==> step == if arg {
        ParseStep {
            shape: AtomShape::PercentChance { head: p, chance: p + 1 },
            location: span(ws, p, p + 1),
            errors: Seq::empty(),
            next: p + 2,
        }
    } else {
        missing(ParseErrorKind::MissingPercentChance)
    }
}

/// Which statement a word begins, whatever the case of its letters: `{` and `}` open and close
/// a block; `else`, `endif`, `start_random` and `end_random` each stand alone; `if`, `elseif` and
/// `percent_chance` take the argument that follows, and without one the word is kept as an
/// unrecognised word with an error saying what is missing.
pub proof fn law_keywords_parse(ws: Seq<Word>, p: int)
    requires
        0 <= p < ws.len(),
    ensures
        keyword_step_ok(ws, p),
{
    let low = lower_bytes(text(ws[p]));
    lemma_keyword_bytes();
    if low == "{".spec_bytes() {
        lemma_open_block_parses(ws, p);
    }
    if low == "}".spec_bytes() {
        lemma_close_block_parses(ws, p);
    }
    if low == "else".spec_bytes() {
        lemma_else_parses(ws, p);
    }
    if low == "endif".spec_bytes() {
        lemma_endif_parses(ws, p);
    }
    if low == "start_random".spec_bytes() {
        lemma_start_random_parses(ws, p);
    }
    if low == "end_random".spec_bytes() {
        lemma_end_random_parses(ws, p);
    }
    if low == "if".spec_bytes() {
        lemma_if_parses(ws, p);
    }
    if low == "elseif".spec_bytes() {
        lemma_elseif_parses(ws, p);
    }
    if low == "percent_chance".spec_bytes() {
        lemma_percent_chance_parses(ws, p);
    }
}

/// The bytes of the words that begin statements.
proof fn lemma_keyword_bytes()
    ensures
        "{".spec_bytes() == seq![0x7bu8],
        "}".spec_bytes() == seq![0x7du8],
        "/*".spec_bytes() == seq![0x2fu8, 0x2au8],
        "if".spec_bytes() == seq![0x69u8, 0x66u8],
        "elseif".spec_bytes() == seq![0x65u8, 0x6cu8, 0x73u8, 0x65u8, 0x69u8, 0x66u8],
        "else".spec_bytes() == seq![0x65u8, 0x6cu8, 0x73u8, 0x65u8],
        "endif".spec_bytes() == seq![0x65u8, 0x6eu8, 0x64u8, 0x69u8, 0x66u8],
        "start_random".spec_bytes() == seq![0x73u8, 0x74u8, 0x61u8, 0x72u8, 0x74u8, 0x5fu8, 0x72u8, 0x61u8, 0x6eu8, 0x64u8, 0x6fu8, 0x6du8],
        "percent_chance".spec_bytes() == seq![0x70u8, 0x65u8, 0x72u8, 0x63u8, 0x65u8, 0x6eu8, 0x74u8, 0x5fu8, 0x63u8, 0x68u8, 0x61u8, 0x6eu8, 0x63u8, 0x65u8],
        "end_random".spec_bytes() == seq![0x65u8, 0x6eu8, 0x64u8, 0x5fu8, 0x72u8, 0x61u8, 0x6eu8, 0x64u8, 0x6fu8, 0x6du8],
{
    reveal_strlit("{");
    is_ascii_spec_bytes("{");
    assert(is_ascii("{"));
    assert("{".spec_bytes() =~= seq![0x7bu8]);
    reveal_strlit("}");
    is_ascii_spec_bytes("}");
    assert(is_ascii("}"));
    assert("}".spec_bytes() =~= seq![0x7du8]);
    reveal_strlit("/*");
    is_ascii_spec_bytes("/*");
    assert(is_ascii("/*"));
    assert("/*".spec_bytes() =~= seq![0x2fu8, 0x2au8]);
    reveal_strlit("if");
    is_ascii_spec_bytes("if");
    assert(is_ascii("if"));
    assert("if".spec_bytes() =~= seq![0x69u8, 0x66u8]);
    reveal_strlit("elseif");
    is_ascii_spec_bytes("elseif");
    assert(is_ascii("elseif"));
    assert("elseif".spec_bytes() =~= seq![0x65u8, 0x6cu8, 0x73u8, 0x65u8, 0x69u8, 0x66u8]);
    reveal_strlit("else");
    is_ascii_spec_bytes("else");
    assert(is_ascii("else"));
    assert("else".spec_bytes() =~= seq![0x65u8, 0x6cu8, 0x73u8, 0x65u8]);
    reveal_strlit("endif");
    is_ascii_spec_bytes("endif");
    assert(is_ascii("endif"));
    assert("endif".spec_bytes() =~= seq![0x65u8, 0x6eu8, 0x64u8, 0x69u8, 0x66u8]);
    reveal_strlit("start_random");
    is_ascii_spec_bytes("start_random");
    assert(is_ascii("start_random"));
    assert("start_random".spec_bytes() =~= seq![0x73u8, 0x74u8, 0x61u8, 0x72u8, 0x74u8, 0x5fu8, 0x72u8, 0x61u8, 0x6eu8, 0x64u8, 0x6fu8, 0x6du8]);
    reveal_strlit("percent_chance");
    is_ascii_spec_bytes("percent_chance");
    assert(is_ascii("percent_chance"));
    assert("percent_chance".spec_bytes() =~= seq![0x70u8, 0x65u8, 0x72u8, 0x63u8, 0x65u8, 0x6eu8, 0x74u8, 0x5fu8, 0x63u8, 0x68u8, 0x61u8, 0x6eu8, 0x63u8, 0x65u8]);
    reveal_strlit("end_random");
    is_ascii_spec_bytes("end_random");
    assert(is_ascii("end_random"));
    assert("end_random".spec_bytes() =~= seq![0x65u8, 0x6eu8, 0x64u8, 0x5fu8, 0x72u8, 0x61u8, 0x6eu8, 0x64u8, 0x6fu8, 0x6du8]);
}

/// The word's own bytes begin as its lower-case ones do, apart from the case of letters.
proof fn lemma_low_start(ws: Seq<Word>, p: int)
    requires
        0 <= p < ws.len(),
    ensures
        lower_bytes(text(ws[p])).len() == text(ws[p]).len(),
        forall|i: int| 0 <= i < text(ws[p]).len() ==> #[trigger] lower_bytes(text(ws[p]))[i] == lower_byte(text(ws[p])[i]),
{
}

proof fn lemma_open_block_parses(ws: Seq<Word>, p: int)
    requires
        0 <= p < ws.len(),
        lower_bytes(text(ws[p])) == seq![0x7bu8],
    ensures
        keyword_step_ok(ws, p),
{
    reveal(parse_step);
    lemma_keyword_bytes();
    lemma_low_start(ws, p);
    let t = text(ws[p]);
    assert(lower_bytes(t)[0] == lower_byte(t[0]));
}

proof fn lemma_close_block_parses(ws: Seq<Word>, p: int)
    requires
        0 <= p < ws.len(),
        lower_bytes(text(ws[p])) == seq![0x7du8],
    ensures
        keyword_step_ok(ws, p),
{
    reveal(parse_step);
    lemma_keyword_bytes();
    lemma_low_start(ws, p);
    let t = text(ws[p]);
    assert(lower_bytes(t)[0] == lower_byte(t[0]));
}

proof fn lemma_else_parses(ws: Seq<Word>, p: int)
    requires
        0 <= p < ws.len(),
        lower_bytes(text(ws[p])) == seq![0x65u8, 0x6cu8, 0x73u8, 0x65u8],
    ensures
        keyword_step_ok(ws, p),
{
    reveal(parse_step);
    lemma_keyword_bytes();
    lemma_low_start(ws, p);
    let t = text(ws[p]);
    assert(lower_bytes(t)[0] == lower_byte(t[0]));
}

proof fn lemma_endif_parses(ws: Seq<Word>, p: int)
    requires
        0 <= p < ws.len(),
        lower_bytes(text(ws[p])) == seq![0x65u8, 0x6eu8, 0x64u8, 0x69u8, 0x66u8],
    ensures
        keyword_step_ok(ws, p),
{
    reveal(parse_step);
    lemma_keyword_bytes();
    lemma_low_start(ws, p);
    let t = text(ws[p]);
    assert(lower_bytes(t)[0] == lower_byte(t[0]));
}

proof fn lemma_start_random_parses(ws: Seq<Word>, p: int)
    requires
        0 <= p < ws.len(),
        lower_bytes(text(ws[p])) == seq![0x73u8, 0x74u8, 0x61u8, 0x72u8, 0x74u8, 0x5fu8, 0x72u8, 0x61u8, 0x6eu8, 0x64u8, 0x6fu8, 0x6du8],
    ensures
        keyword_step_ok(ws, p),
{
    reveal(parse_step);
    lemma_keyword_bytes();
    lemma_low_start(ws, p);
    let t = text(ws[p]);
    assert(lower_bytes(t)[0] == lower_byte(t[0]));
}

proof fn lemma_end_random_parses(ws: Seq<Word>, p: int)
    requires
        0 <= p < ws.len(),
        lower_bytes(text(ws[p])) == seq![0x65u8, 0x6eu8, 0x64u8, 0x5fu8, 0x72u8, 0x61u8, 0x6eu8, 0x64u8, 0x6fu8, 0x6du8],
    ensures
        keyword_step_ok(ws, p),
{
    reveal(parse_step);
    lemma_keyword_bytes();
    lemma_low_start(ws, p);
    let t = text(ws[p]);
    assert(lower_bytes(t)[0] == lower_byte(t[0]));
}

proof fn lemma_if_parses(ws: Seq<Word>, p: int)
    requires
        0 <= p < ws.len(),
        lower_bytes(text(ws[p])) == seq![0x69u8, 0x66u8],
    ensures
        keyword_step_ok(ws, p),
{
    reveal(parse_step);
    lemma_keyword_bytes();
    lemma_low_start(ws, p);
    let t = text(ws[p]);
    assert(lower_bytes(t)[0] == lower_byte(t[0]));
}

proof fn lemma_elseif_parses(ws: Seq<Word>, p: int)
    requires
        0 <= p < ws.len(),
        lower_bytes(text(ws[p])) == seq![0x65u8, 0x6cu8, 0x73u8, 0x65u8, 0x69u8, 0x66u8],
    ensures
        keyword_step_ok(ws, p),
{
    reveal(parse_step);
    lemma_keyword_bytes();
    lemma_low_start(ws, p);
    let t = text(ws[p]);
    assert(lower_bytes(t)[0] == lower_byte(t[0]));
}

proof fn lemma_percent_chance_parses(ws: Seq<Word>, p: int)
    requires
        0 <= p < ws.len(),
        lower_bytes(text(ws[p])) == seq![0x70u8, 0x65u8, 0x72u8, 0x63u8, 0x65u8, 0x6eu8, 0x74u8, 0x5fu8, 0x63u8, 0x68u8, 0x61u8, 0x6eu8, 0x63u8, 0x65u8],
    ensures
        keyword_step_ok(ws, p),
{
    reveal(parse_step);
    lemma_keyword_bytes();
    lemma_low_start(ws, p);
    let t = text(ws[p]);
    assert(lower_bytes(t)[0] == lower_byte(t[0]));
}

} // verus!
