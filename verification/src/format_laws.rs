//! What formatting writes for the statements of a script.

use crate::formatter::{
    blen, ends_with_text, fmt_atom, fmt_pre, last_width, repeat, rest_args, st_command, st_indent,
    st_newline, st_push, st_simple, st_text, FmtState, FormatOptions,
};
use crate::parser::{Atom, AtomKind};
use crate::wordize::Word;
use vstd::prelude::*;
use vstd::string::*;

verus! {

/// The line a statement that opens nothing ends with: its keyword and its words, each after a
/// space, then a line break; a section header is its name alone.
pub open spec fn statement_line(atom: Atom) -> Option<Seq<char>> {
    match atom.kind {
        AtomKind::Section { name } => Some(name.value@ + "\r\n"@),
        AtomKind::Define { name, .. } => Some("#define "@ + name.value@ + "\r\n"@),
        AtomKind::Undefine { name, .. } => Some("#undefine "@ + name.value@ + "\r\n"@),
        AtomKind::Const { name, value, .. } => Some(
            "#const "@ + name.value@ + " "@ + match value {
                Some(v) => v.value@,
                None => Seq::empty(),
            } + "\r\n"@,
        ),
        AtomKind::ElseIf { condition, .. } => Some("elseif "@ + condition.value@ + "\r\n"@),
        AtomKind::Else { .. } => Some("else\r\n"@),
        AtomKind::EndIf { .. } => Some("endif\r\n"@),
        AtomKind::PercentChance { chance, .. } => Some(
            "percent_chance "@ + chance.value@ + "\r\n"@,
        ),
        AtomKind::EndRandom { .. } => Some("end_random\r\n"@),
        AtomKind::CloseBlock { .. } => Some("}\r\n"@),
        _ => None,
    }
}

/// Every statement that opens nothing and holds no free text (sections, `#define`,
/// `#undefine`, `#const`, `elseif`, `else`, `endif`, `percent_chance`, `end_random` and `}`) is
/// written in full: the text after it ends with its line, so none of its words is lost or
/// changed.
pub proof fn law_statements_written_in_full(
    o: FormatOptions,
    src: Seq<u8>,
    st: FmtState,
    atom: Atom,
    input: Seq<Atom>,
    pos: int,
)
    requires
        0 <= pos <= input.len(),
        statement_line(atom) is Some,
    ensures
        ends_with_text(fmt_atom(o, src, st, atom, input, pos).0.result, statement_line(atom)->0),
{
    lemma_plain_result(o, src, st, atom, input, pos);
    lemma_statement_line(o, fmt_pre(o, src, st, atom), atom, input, pos);
}

/// The statement's text ends with its line.
proof fn lemma_statement_line(o: FormatOptions, pre: FmtState, atom: Atom, input: Seq<Atom>, pos: int)
    requires
        statement_line(atom) is Some,
    ensures
        ends_with_text(st_simple(o, pre, atom, input, pos).result, statement_line(atom)->0),
{
    match atom.kind {
        AtomKind::Section { .. } => lemma_line_section(o, pre, atom, input, pos),
        AtomKind::Define { .. } => lemma_line_define(o, pre, atom, input, pos),
        AtomKind::Undefine { .. } => lemma_line_undefine(o, pre, atom, input, pos),
        AtomKind::Const { .. } => lemma_line_const(o, pre, atom, input, pos),
        AtomKind::ElseIf { .. } => lemma_line_elseif(o, pre, atom, input, pos),
        AtomKind::PercentChance { .. } => lemma_line_percentchance(o, pre, atom, input, pos),
        AtomKind::Else { .. } => lemma_line_else(o, pre, atom, input, pos),
        AtomKind::EndIf { .. } => lemma_line_endif(o, pre, atom, input, pos),
        AtomKind::EndRandom { .. } => lemma_line_endrandom(o, pre, atom, input, pos),
        AtomKind::CloseBlock { .. } => lemma_line_closeblock(o, pre, atom, input, pos),
        _ => {},
    }
}

proof fn lemma_line_section(o: FormatOptions, pre: FmtState, atom: Atom, input: Seq<Atom>, pos: int)
    requires
        atom.kind is Section,
    ensures
        ends_with_text(st_simple(o, pre, atom, input, pos).result, statement_line(atom)->0),
{
    let t = statement_line(atom)->0;
    let r = st_simple(o, pre, atom, input, pos).result;
    reveal_strlit("\r\n");
    let s = if pre.prev is Some {
        st_newline(pre)
    } else {
        pre
    };
    assert(r =~= st_indent(o, s).result + t);
    assert(r.subrange(r.len() - t.len(), r.len() as int) =~= t);
}

proof fn lemma_line_define(o: FormatOptions, pre: FmtState, atom: Atom, input: Seq<Atom>, pos: int)
    requires
        atom.kind is Define,
    ensures
        ends_with_text(st_simple(o, pre, atom, input, pos).result, statement_line(atom)->0),
{
    let t = statement_line(atom)->0;
    let r = st_simple(o, pre, atom, input, pos).result;
    reveal_strlit("\r\n");
    assert(r =~= st_indent(o, pre).result + t);
    assert(r.subrange(r.len() - t.len(), r.len() as int) =~= t);
}

proof fn lemma_line_undefine(o: FormatOptions, pre: FmtState, atom: Atom, input: Seq<Atom>, pos: int)
    requires
        atom.kind is Undefine,
    ensures
        ends_with_text(st_simple(o, pre, atom, input, pos).result, statement_line(atom)->0),
{
    let t = statement_line(atom)->0;
    let r = st_simple(o, pre, atom, input, pos).result;
    reveal_strlit("\r\n");
    assert(r =~= st_indent(o, pre).result + t);
    assert(r.subrange(r.len() - t.len(), r.len() as int) =~= t);
}

proof fn lemma_line_const(o: FormatOptions, pre: FmtState, atom: Atom, input: Seq<Atom>, pos: int)
    requires
        atom.kind is Const,
    ensures
        ends_with_text(st_simple(o, pre, atom, input, pos).result, statement_line(atom)->0),
{
    let t = statement_line(atom)->0;
    let r = st_simple(o, pre, atom, input, pos).result;
    reveal_strlit("\r\n");
    assert(r =~= st_indent(o, pre).result + t);
    assert(r.subrange(r.len() - t.len(), r.len() as int) =~= t);
}

proof fn lemma_line_elseif(o: FormatOptions, pre: FmtState, atom: Atom, input: Seq<Atom>, pos: int)
    requires
        atom.kind is ElseIf,
    ensures
        ends_with_text(st_simple(o, pre, atom, input, pos).result, statement_line(atom)->0),
{
    let t = statement_line(atom)->0;
    let r = st_simple(o, pre, atom, input, pos).result;
    reveal_strlit("\r\n");
    assert(r =~= st_indent(o, pre).result + t);
    assert(r.subrange(r.len() - t.len(), r.len() as int) =~= t);
}

proof fn lemma_line_percentchance(o: FormatOptions, pre: FmtState, atom: Atom, input: Seq<Atom>, pos: int)
    requires
        atom.kind is PercentChance,
    ensures
        ends_with_text(st_simple(o, pre, atom, input, pos).result, statement_line(atom)->0),
{
    let t = statement_line(atom)->0;
    let r = st_simple(o, pre, atom, input, pos).result;
    reveal_strlit("\r\n");
    assert(r =~= st_indent(o, pre).result + t);
    assert(r.subrange(r.len() - t.len(), r.len() as int) =~= t);
}

proof fn lemma_line_else(o: FormatOptions, pre: FmtState, atom: Atom, input: Seq<Atom>, pos: int)
    requires
        atom.kind is Else,
    ensures
        ends_with_text(st_simple(o, pre, atom, input, pos).result, statement_line(atom)->0),
{
    let t = statement_line(atom)->0;
    let r = st_simple(o, pre, atom, input, pos).result;
    reveal_strlit("else\r\n");
    reveal_strlit("else");
    reveal_strlit("\r\n");
    assert("else"@ + "\r\n"@ =~= t);
    assert(r =~= st_indent(o, pre).result + t);
    assert(r.subrange(r.len() - t.len(), r.len() as int) =~= t);
}

proof fn lemma_line_endif(o: FormatOptions, pre: FmtState, atom: Atom, input: Seq<Atom>, pos: int)
    requires
        atom.kind is EndIf,
    ensures
        ends_with_text(st_simple(o, pre, atom, input, pos).result, statement_line(atom)->0),
{
    let t = statement_line(atom)->0;
    let r = st_simple(o, pre, atom, input, pos).result;
    reveal_strlit("endif\r\n");
    reveal_strlit("endif");
    reveal_strlit("\r\n");
    assert("endif"@ + "\r\n"@ =~= t);
    assert(r =~= st_indent(o, pre).result + t);
    assert(r.subrange(r.len() - t.len(), r.len() as int) =~= t);
}

proof fn lemma_line_endrandom(o: FormatOptions, pre: FmtState, atom: Atom, input: Seq<Atom>, pos: int)
    requires
        atom.kind is EndRandom,
    ensures
        ends_with_text(st_simple(o, pre, atom, input, pos).result, statement_line(atom)->0),
{
    let t = statement_line(atom)->0;
    let r = st_simple(o, pre, atom, input, pos).result;
    reveal_strlit("end_random\r\n");
    reveal_strlit("end_random");
    reveal_strlit("\r\n");
    assert("end_random"@ + "\r\n"@ =~= t);
    assert(r =~= st_indent(o, pre).result + t);
    assert(r.subrange(r.len() - t.len(), r.len() as int) =~= t);
}

proof fn lemma_line_closeblock(o: FormatOptions, pre: FmtState, atom: Atom, input: Seq<Atom>, pos: int)
    requires
        atom.kind is CloseBlock,
    ensures
        ends_with_text(st_simple(o, pre, atom, input, pos).result, statement_line(atom)->0),
{
    let t = statement_line(atom)->0;
    let r = st_simple(o, pre, atom, input, pos).result;
    reveal_strlit("}\r\n");
    reveal_strlit("}");
    reveal_strlit("\r\n");
    assert("}"@ + "\r\n"@ =~= t);
    assert(r =~= st_indent(o, pre).result + t);
    assert(r.subrange(r.len() - t.len(), r.len() as int) =~= t);
}

/// What formatting an atom that opens nothing writes is what its statement writes after the
/// white space before it.
proof fn lemma_plain_result(
    o: FormatOptions,
    src: Seq<u8>,
    st: FmtState,
    atom: Atom,
    input: Seq<Atom>,
    pos: int,
)
    requires
        0 <= pos <= input.len(),
        statement_line(atom) is Some,
    ensures
        fmt_atom(o, src, st, atom, input, pos).0.result == st_simple(
            o,
            fmt_pre(o, src, st, atom),
            atom,
            input,
            pos,
        ).result,
{
}

/// The arguments from `i` on, each after at least one space: `gaps[j]` more spaces before the
/// space in front of the `j`th argument.
pub open spec fn spaced_args(args: Seq<Word>, gaps: Seq<nat>, i: int) -> Seq<char>
    decreases args.len() - i,
{
    if i < 0 || i >= args.len() {
        Seq::empty()
    } else {
        repeat(' ', gaps[i] as int) + " "@ + args[i].value@ + spaced_args(args, gaps, i + 1)
    }
}

/// The arguments from `i` on, each after one space.
spec fn single_spaced(args: Seq<Word>, i: int) -> Seq<char>
    decreases args.len() - i,
{
    if i < 0 || i >= args.len() {
        Seq::empty()
    } else {
        seq![' '] + args[i].value@ + single_spaced(args, i + 1)
    }
}

/// Writing the arguments from `i` on appends each after one space, and leaves the line
/// indented.
proof fn lemma_rest_args(o: FormatOptions, st: FmtState, args: Seq<Word>, i: int)
    requires
        0 <= i <= args.len(),
        !st.needs_indent,
    ensures
        rest_args(o, st, args, i).result == st.result + single_spaced(args, i),
        !rest_args(o, st, args, i).needs_indent,
    decreases args.len() - i,
{
    if i < args.len() {
        let st2 = st_text(o, st_push(st, seq![' ']), args[i].value@);
        lemma_rest_args(o, st2, args, i + 1);
        assert(rest_args(o, st, args, i).result =~= st.result + single_spaced(args, i));
    } else {
        assert(st.result + single_spaced(args, i) =~= st.result);
    }
}

/// With no extra spaces from `i` on, the spaced arguments are the single-spaced ones.
proof fn lemma_no_gaps(args: Seq<Word>, gaps: Seq<nat>, i: int)
    requires
        0 <= i <= args.len(),
        gaps.len() == args.len(),
        forall|j: int| i <= j < args.len() ==> gaps[j] == 0,
    ensures
        spaced_args(args, gaps, i) == single_spaced(args, i),
    decreases args.len() - i,
{
    reveal_strlit(" ");
    if i < args.len() {
        lemma_no_gaps(args, gaps, i + 1);
        assert(repeat(' ', 0) =~= Seq::<char>::empty());
        assert(spaced_args(args, gaps, i) =~= single_spaced(args, i));
    }
}

/// A command is written with all its words in order: its name, then each argument after one
/// space or more (more where arguments are aligned), then a line break, or a space when a block
/// follows. So no argument is lost, added or changed.
pub proof fn law_command_written_in_full(
    o: FormatOptions,
    src: Seq<u8>,
    st: FmtState,
    atom: Atom,
    input: Seq<Atom>,
    pos: int,
)
    requires
        0 <= pos <= input.len(),
        atom.kind is Command,
    ensures
        ({
            let r = fmt_atom(o, src, st, atom, input, pos).0.result;
            let end = if 0 <= pos < input.len() && input[pos].kind is OpenBlock {
                " "@
            } else {
                "\r\n"@
            };
            match atom.kind {
                AtomKind::Command { name, arguments } => exists|gaps: Seq<nat>|
                    gaps.len() == arguments@.len() && ends_with_text(
                        r,
                        name.value@ + spaced_args(arguments@, gaps, 0) + end,
                    ),
                _ => true,
            }
        }),
{
    if let AtomKind::Command { name, arguments } = atom.kind {
        let is_block = 0 <= pos < input.len() && input[pos].kind is OpenBlock;
        let pre = fmt_pre(o, src, st, atom);
        lemma_command_result(o, src, st, atom, input, pos);
        lemma_command_line(o, pre, name, arguments@, is_block);
    }
}

/// What formatting a command writes is what its statement writes after the white space before
/// it.
proof fn lemma_command_result(
    o: FormatOptions,
    src: Seq<u8>,
    st: FmtState,
    atom: Atom,
    input: Seq<Atom>,
    pos: int,
)
    requires
        0 <= pos <= input.len(),
        atom.kind is Command,
    ensures
        match atom.kind {
            AtomKind::Command { name, arguments } => fmt_atom(o, src, st, atom, input, pos).0.result
                == st_command(
                o,
                fmt_pre(o, src, st, atom),
                name,
                arguments@,
                0 <= pos < input.len() && input[pos].kind is OpenBlock,
            ).result,
            _ => true,
        },
{
}

/// A command's statement ends with its name and its arguments, each after one space or more.
proof fn lemma_command_line(o: FormatOptions, pre: FmtState, name: Word, args: Seq<Word>, is_block: bool)
    ensures
        exists|gaps: Seq<nat>|
            gaps.len() == args.len() && ends_with_text(
                st_command(o, pre, name, args, is_block).result,
                name.value@ + spaced_args(args, gaps, 0) + (if is_block {
                    " "@
                } else {
                    "\r\n"@
                }),
            ),
{
    reveal_strlit(" ");
    reveal_strlit("\r\n");
    let end = if is_block {
        " "@
    } else {
        "\r\n"@
    };
    let r = st_command(o, pre, name, args, is_block).result;
    let s1 = st_text(o, pre, name.value@);
    let (cw, aw) = last_width(s1);
    let aligned = o.spec_align_arguments() && args.len() > 0;
    let g0: nat = if aligned {
        cw.saturating_sub(blen(name)) as nat
    } else {
        0
    };
    let g1: nat = if aligned && args.len() > 1 {
        aw.saturating_sub(blen(args[0])) as nat
    } else {
        0
    };
    let gaps = Seq::new(args.len(), |j: int| if j == 0 {
        g0
    } else if j == 1 {
        g1
    } else {
        0nat
    });
    let s2 = if aligned {
        let a = st_push(s1, repeat(' ', cw.saturating_sub(blen(name)) as int));
        let b = st_text(o, st_push(a, seq![' ']), args[0].value@);
        if args.len() > 1 {
            st_push(b, repeat(' ', aw.saturating_sub(blen(args[0])) as int))
        } else {
            b
        }
    } else {
        s1
    };
    let start: int = if aligned {
        1
    } else {
        0
    };
    lemma_rest_args(o, s2, args, start);
    let line = name.value@ + spaced_args(args, gaps, 0) + end;
    let base = st_indent(o, pre).result;
    if aligned {
        if args.len() > 1 {
            lemma_no_gaps(args, gaps, 2int);
            assert(spaced_args(args, gaps, 1) =~= repeat(' ', g1 as int) + single_spaced(args, 1));
        } else {
            assert(spaced_args(args, gaps, 1) =~= single_spaced(args, 1));
        }
        assert(r =~= base + line);
    } else {
        lemma_no_gaps(args, gaps, 0);
        assert(r =~= base + line);
    }
    assert(r.subrange(r.len() - line.len(), r.len() as int) =~= line);
    assert(gaps.len() == args.len() && ends_with_text(r, line));
}

} // verus!
