//! Syntax highlighting of a script: the source cut into pieces, each with the style to show it
//! in.

use crate::diagnostic::FileId;
use crate::parser::{
    atom_matches, lemma_parse_step_advances, lemma_parse_step_span, lemma_parse_step_words,
    parse_atoms, parse_from, parse_step, text, Atom, AtomKind, AtomShape,
};
use crate::text::{all_digits, lemma_ascii_boundary, lemma_str_valid};
use crate::wordize::{spans, word_at, words_of, Word};
use vstd::prelude::*;
use vstd::string::*;
use vstd::utf8::*;

verus! {

/// The style of a piece of source.
#[derive(Debug, Clone, Copy, PartialEq, Eq, Structural)]
pub enum Highlight {
    /// Shown as it is: white space, and the words that no style applies to.
    Plain,
    Attribute,
    Comment,
    Const,
    Keyword,
    Number,
    Section,
    Syntax,
}

/// A piece of the source between two byte offsets, with its style.
#[derive(Debug, Clone, Copy, PartialEq, Eq, Structural)]
pub struct Segment {
    pub start: usize,
    pub end: usize,
    pub style: Highlight,
}

/// A word with a style.
pub open spec fn styled(w: Word, style: Highlight) -> (usize, usize, Highlight) {
    (w.location.start.0, w.location.end.0, style)
}

/// The styled arguments of a command from `i` on: numbers as numbers, others as constants.
pub open spec fn styled_args(args: Seq<Word>, i: int) -> Seq<(usize, usize, Highlight)>
    decreases args.len() - i,
{
    if i < 0 || i >= args.len() {
        Seq::empty()
    } else {
        seq![
            styled(
                args[i],
                if all_digits(text(args[i])) {
                    Highlight::Number
                } else {
                    Highlight::Const
                },
            ),
        ] + styled_args(args, i + 1)
    }
}

/// The styled pieces of an atom. A comment's content runs from the end of its opening word for
/// the length of the content.
pub open spec fn styled_atom(atom: Atom) -> Seq<(usize, usize, Highlight)> {
    match atom.kind {
        AtomKind::Section { name } => seq![styled(name, Highlight::Section)],
        AtomKind::Comment { open, content, close } => {
            let cstart = open.location.end.0;
            seq![
                styled(open, Highlight::Comment),
                (cstart, cstart.saturating_add(vstd::utf8::encode_utf8(content@).len() as usize), Highlight::Comment),
            ] + match close {
                Some(c) => seq![styled(c, Highlight::Comment)],
                None => Seq::empty(),
            }
        },
        AtomKind::OpenBlock { head } => seq![styled(head, Highlight::Syntax)],
        AtomKind::CloseBlock { head } => seq![styled(head, Highlight::Syntax)],
        AtomKind::If { head, condition } => seq![styled(head, Highlight::Keyword), styled(condition, Highlight::Const)],
        AtomKind::ElseIf { head, condition } => seq![styled(head, Highlight::Keyword), styled(condition, Highlight::Const)],
        AtomKind::Else { head } => seq![styled(head, Highlight::Keyword)],
        AtomKind::EndIf { head } => seq![styled(head, Highlight::Keyword)],
        AtomKind::StartRandom { head } => seq![styled(head, Highlight::Keyword)],
        AtomKind::EndRandom { head } => seq![styled(head, Highlight::Keyword)],
        AtomKind::PercentChance { head, chance } => seq![styled(head, Highlight::Keyword), styled(chance, Highlight::Number)],
        AtomKind::Command { name, arguments } => seq![styled(name, Highlight::Attribute)] + styled_args(arguments@, 0),
        _ => Seq::empty(),
    }
}

/// The styled pieces of the atoms from `i` on.
pub open spec fn styled_atoms(atoms: Seq<Atom>, i: int) -> Seq<(usize, usize, Highlight)>
    decreases atoms.len() - i,
{
    if i < 0 || i >= atoms.len() {
        Seq::empty()
    } else {
        styled_atom(atoms[i]) + styled_atoms(atoms, i + 1)
    }
}

/// The segments for the styled pieces from `i` on, when the text before `last` is already
/// covered: before each piece, the plain text since the previous one; at the end, the plain
/// rest of the source up to `len`.
pub open spec fn segments_from(pieces: Seq<(usize, usize, Highlight)>, i: int, last: usize, len: usize) -> Seq<Segment>
    decreases pieces.len() - i,
{
    if i < 0 || i >= pieces.len() {
        seq![Segment { start: last, end: if len >= last { len } else { last }, style: Highlight::Plain }]
    } else {
        let (s, e, style) = pieces[i];
        let gap_end = if s >= last {
            s
        } else {
            last
        };
        seq![
            Segment { start: last, end: gap_end, style: Highlight::Plain },
            Segment { start: s, end: e, style },
        ] + segments_from(pieces, i + 1, e, len)
    }
}

/// Adds the styled pieces of an atom.
fn push_styled(v: &mut Vec<(usize, usize, Highlight)>, atom: &Atom)
    ensures
        final(v)@ == old(v)@ + styled_atom(*atom),
{
    let ghost before = v@;
    match &atom.kind {
        AtomKind::Section { name } => v.push((name.location.start.0, name.location.end.0, Highlight::Section)),
        AtomKind::Comment { open, content, close } => {
            let cstart = open.location.end.0;
            v.push((open.location.start.0, open.location.end.0, Highlight::Comment));
            v.push((cstart, cstart.saturating_add(content.as_str().as_bytes().len()), Highlight::Comment));
            if let Some(c) = close {
                v.push((c.location.start.0, c.location.end.0, Highlight::Comment));
            }
        },
        AtomKind::OpenBlock { head } | AtomKind::CloseBlock { head } => {
            v.push((head.location.start.0, head.location.end.0, Highlight::Syntax));
        },
        AtomKind::If { head, condition } | AtomKind::ElseIf { head, condition } => {
            v.push((head.location.start.0, head.location.end.0, Highlight::Keyword));
            v.push((condition.location.start.0, condition.location.end.0, Highlight::Const));
        },
        AtomKind::Else { head } | AtomKind::EndIf { head } | AtomKind::StartRandom { head }
        | AtomKind::EndRandom { head } => {
            v.push((head.location.start.0, head.location.end.0, Highlight::Keyword));
        },
        AtomKind::PercentChance { head, chance } => {
            v.push((head.location.start.0, head.location.end.0, Highlight::Keyword));
            v.push((chance.location.start.0, chance.location.end.0, Highlight::Number));
        },
        AtomKind::Command { name, arguments } => {
            v.push((name.location.start.0, name.location.end.0, Highlight::Attribute));
            let ghost mid = v@;
            let mut i: usize = 0;
            assert(styled_args(arguments@, 0) =~= styled_args(arguments@, 0));
            while i < arguments.len()
                invariant
                    i <= arguments@.len(),
                    v@ + styled_args(arguments@, i as int) == mid + styled_args(arguments@, 0),
                decreases arguments@.len() - i,
            {
                let arg = &arguments[i];
                let t = arg.value.as_bytes();
                let mut digits = true;
                let mut k: usize = 0;
                while k < t.len()
                    invariant
                        k <= t@.len(),
                        t@ == text(*arg),
                        digits == forall|j: int| 0 <= j < k ==> crate::text::is_digit(#[trigger] t@[j]),
                    decreases t@.len() - k,
                {
                    if !(0x30 <= t[k] && t[k] <= 0x39) {
                        digits = false;
                    }
                    k = k + 1;
                }
                let style = if digits {
                    Highlight::Number
                } else {
                    Highlight::Const
                };
                let ghost prev = v@;
                v.push((arg.location.start.0, arg.location.end.0, style));
                assert(v@ + styled_args(arguments@, i + 1) =~= prev + styled_args(arguments@, i as int));
                i = i + 1;
            }
            assert(v@ + styled_args(arguments@, i as int) =~= v@);
        },
        _ => {},
    }
    assert(v@ =~= before + styled_atom(*atom));
}

/// The source of a script cut into segments that cover it in order, each with its style: the
/// first starts at the start of the source, each ends where the next starts, and the last ends
/// at the end of the source, so writing each segment's text in turn writes the source unchanged.
pub fn highlight_segments(source: &str) -> (r: Vec<Segment>)
    ensures
        exists|ws: Seq<Word>, atoms: Seq<Atom>|
            #![trigger styled_atoms(atoms, 0), words_of(ws, FileId(0), source.spec_bytes())]
            {
                let src = source.spec_bytes();
                &&& words_of(ws, FileId(0), src)
                &&& atoms.len() == parse_from(ws, 0).len()
                &&& forall|i: int| 0 <= i < atoms.len() ==> atom_matches(#[trigger] atoms[i], parse_from(ws, 0)[i], ws, src)
                &&& r@ == segments_from(styled_atoms(atoms, 0), 0, 0, src.len() as usize)
            },
        r@.len() > 0,
        r@[0].start == 0,
        r@.last().end == source.spec_bytes().len(),
        forall|k: int| 0 <= k < r@.len() ==> (#[trigger] r@[k]).start <= r@[k].end,
        forall|k: int| 0 <= k < r@.len() - 1 ==> #[trigger] joins(r@, k),
{
    let atoms = parse_atoms(source);
    let mut pieces: Vec<(usize, usize, Highlight)> = Vec::new();
    let mut i: usize = 0;
    assert(pieces@ + styled_atoms(atoms@, 0) =~= styled_atoms(atoms@, 0));
    while i < atoms.len()
        invariant
            i <= atoms@.len(),
            pieces@ + styled_atoms(atoms@, i as int) == styled_atoms(atoms@, 0),
        decreases atoms@.len() - i,
    {
        let ghost p0 = pieces@;
        push_styled(&mut pieces, &atoms[i]);
        assert(p0 + styled_atoms(atoms@, i as int) =~= pieces@ + styled_atoms(atoms@, i + 1));
        i = i + 1;
    }
    assert(pieces@ + styled_atoms(atoms@, i as int) =~= pieces@);
    let len = source.as_bytes().len();
    let mut r: Vec<Segment> = Vec::new();
    let mut last: usize = 0;
    let mut j: usize = 0;
    assert(r@ + segments_from(pieces@, 0, 0, len) =~= segments_from(pieces@, 0, 0, len));
    while j < pieces.len()
        invariant
            j <= pieces@.len(),
            r@ + segments_from(pieces@, j as int, last, len) == segments_from(pieces@, 0, 0, len),
        decreases pieces@.len() - j,
    {
        let (s, e, style) = pieces[j];
        let gap_end = if s >= last {
            s
        } else {
            last
        };
        let ghost r0 = r@;
        r.push(Segment { start: last, end: gap_end, style: Highlight::Plain });
        r.push(Segment { start: s, end: e, style });
        assert(r@ + segments_from(pieces@, j + 1, e, len) =~= r0 + segments_from(pieces@, j as int, last, len));
        last = e;
        j = j + 1;
    }
    let ghost r0 = r@;
    r.push(Segment {
        start: last,
        end: if len >= last {
            len
        } else {
            last
        },
        style: Highlight::Plain,
    });
    assert(r@ =~= r0 + segments_from(pieces@, j as int, last, len));
    proof {
        let src = source.spec_bytes();
        let ws = choose|ws: Seq<Word>|
            {
                &&& words_of(ws, FileId(0), src)
                &&& atoms@.len() == parse_from(ws, 0).len()
                &&& forall|i: int| 0 <= i < atoms@.len() ==> atom_matches(#[trigger] atoms@[i], parse_from(ws, 0)[i], ws, src)
            };
        assert(words_of(ws, FileId(0), src));
        assert(r@ == segments_from(styled_atoms(atoms@, 0), 0, 0, src.len() as usize));
        law_highlight_pieces_in_order(source, ws, atoms@);
        law_segments_cover(styled_atoms(atoms@, 0), 0, 0, src.len() as usize);
    }
    r
}

} // verus!

verus! {

/// The styled pieces from `i` on come in order, none before `last`, each starting before it
/// ends, and the last ending by `len`.
pub open spec fn pieces_in_order(pieces: Seq<(usize, usize, Highlight)>, i: int, last: usize, len: usize) -> bool
    decreases pieces.len() - i,
{
    if i < 0 || i >= pieces.len() {
        last <= len
    } else {
        last <= pieces[i].0 <= pieces[i].1 && pieces_in_order(pieces, i + 1, pieces[i].1, len)
    }
}

/// The `k`th segment ends where the next starts.
pub open spec fn joins(segs: Seq<Segment>, k: int) -> bool {
    segs[k].end == segs[k + 1].start
}

/// When the styled pieces come in order, the segments cover the text from `last` to `len`
/// with no gap and no overlap: the first starts at `last`, each ends where the next starts,
/// and the last ends at `len`. Writing the source's bytes of each segment in turn then writes
/// the source from `last` on, unchanged.
pub proof fn law_segments_cover(pieces: Seq<(usize, usize, Highlight)>, i: int, last: usize, len: usize)
    requires
        0 <= i <= pieces.len(),
        pieces_in_order(pieces, i, last, len),
    ensures
        ({
            let segs = segments_from(pieces, i, last, len);
            &&& segs.len() > 0
            &&& segs[0].start == last
            &&& segs.last().end == len
            &&& forall|k: int| 0 <= k < segs.len() ==> (#[trigger] segs[k]).start <= segs[k].end
            &&& forall|k: int| 0 <= k < segs.len() - 1 ==> #[trigger] joins(segs, k)
        }),
    decreases pieces.len() - i,
{
    if i < pieces.len() {
        let (s, e, style) = pieces[i];
        law_segments_cover(pieces, i + 1, e, len);
        let rest = segments_from(pieces, i + 1, e, len);
        let segs = segments_from(pieces, i, last, len);
        let head = seq![
            Segment { start: last, end: s, style: Highlight::Plain },
            Segment { start: s, end: e, style },
        ];
        assert(segs =~= head + rest);
        assert(segs[0] == head[0] && segs[1] == head[1]);
        assert forall|k: int| 0 <= k < segs.len() - 1 implies #[trigger] joins(segs, k) by {
            if k >= 2 {
                assert(segs[k] == rest[k - 2] && segs[k + 1] == rest[k - 1]);
                assert(joins(rest, k - 2));
            } else if k == 1 {
                assert(segs[2] == rest[0]);
            }
        }
        assert forall|k: int| 0 <= k < segs.len() implies (#[trigger] segs[k]).start <= segs[k].end by {
            if k >= 2 {
                assert(segs[k] == rest[k - 2]);
            }
        }
        assert(segs.last() == rest.last());
    }
}

/// The pieces lie in order between `lo` and `hi`, each starting before it ends.
spec fn ordered_within(a: Seq<(usize, usize, Highlight)>, lo: int, hi: int) -> bool {
    &&& lo <= hi
    &&& forall|k: int| 0 <= k < a.len() ==> lo <= (#[trigger] a[k]).0 <= a[k].1 <= hi
    &&& forall|k: int| 0 < k < a.len() ==> a[k - 1].1 <= (#[trigger] a[k]).0
}

/// Pieces in order up to `hi`, followed by pieces in order from `hi`, are in order.
proof fn lemma_in_order_concat(
    a: Seq<(usize, usize, Highlight)>,
    b: Seq<(usize, usize, Highlight)>,
    i: int,
    l: usize,
    hi: usize,
    len: usize,
)
    requires
        0 <= i <= a.len(),
        forall|k: int| 0 <= k < a.len() ==> (#[trigger] a[k]).0 <= a[k].1 <= hi,
        forall|k: int| 0 < k < a.len() ==> a[k - 1].1 <= (#[trigger] a[k]).0,
        i < a.len() ==> l <= a[i].0,
        i == a.len() ==> l <= hi,
        pieces_in_order(b, 0, hi, len),
    ensures
        pieces_in_order(a + b, i, l, len),
    decreases a.len() - i,
{
    if i < a.len() {
        assert((a + b)[i] == a[i]);
        lemma_in_order_concat(a, b, i + 1, a[i].1, hi, len);
    } else {
        lemma_in_order_shift(a, b, 0, l, hi, len);
    }
}

/// Pieces in order from `m` stay in order behind any others, from any `l` up to `m`.
proof fn lemma_in_order_shift(
    a: Seq<(usize, usize, Highlight)>,
    b: Seq<(usize, usize, Highlight)>,
    j: int,
    l: usize,
    m: usize,
    len: usize,
)
    requires
        0 <= j <= b.len(),
        l <= m,
        pieces_in_order(b, j, m, len),
    ensures
        pieces_in_order(a + b, a.len() + j, l, len),
    decreases b.len() - j,
{
    if j < b.len() {
        assert((a + b)[a.len() + j] == b[j]);
        lemma_in_order_shift(a, b, j + 1, b[j].1, b[j].1, len);
    }
}

/// The styled arguments are the arguments' ranges, in turn.
proof fn lemma_styled_args(args: Seq<Word>, i: int)
    requires
        0 <= i <= args.len(),
    ensures
        styled_args(args, i).len() == args.len() - i,
        forall|k: int|
            0 <= k < args.len() - i ==> (#[trigger] styled_args(args, i)[k]).0
                == args[i + k].location.start.0 && styled_args(args, i)[k].1 == args[i
                + k].location.end.0,
    decreases args.len() - i,
{
    if i < args.len() {
        lemma_styled_args(args, i + 1);
        assert forall|k: int|
            0 <= k < args.len() - i implies (#[trigger] styled_args(args, i)[k]).0
                == args[i + k].location.start.0 && styled_args(args, i)[k].1 == args[i
                + k].location.end.0 by {
            if k > 0 {
                assert(styled_args(args, i)[k] == styled_args(args, i + 1)[k - 1]);
            }
        }
    }
}

/// Bytes of valid UTF-8 between two character boundaries decode and encode back to
/// themselves.
proof fn lemma_valid_between(b: Seq<u8>, s: int, e: int)
    requires
        valid_utf8(b),
        0 <= s <= e <= b.len(),
        is_char_boundary(b, s),
        is_char_boundary(b, e),
    ensures
        encode_utf8(decode_utf8(b.subrange(s, e))) == b.subrange(s, e),
{
    valid_utf8_split(b, s);
    let t = b.subrange(s, b.len() as int);
    if e == b.len() {
        assert(b.subrange(s, e) == t);
    } else {
        is_char_boundary_iff_not_is_continuation_byte(b, e);
        is_char_boundary_iff_not_is_continuation_byte(t, e - s);
        assert(t[e - s] == b[e]);
        valid_utf8_split(t, e - s);
        assert(t.subrange(0, e - s) =~= b.subrange(s, e));
    }
    decode_utf8_encode_utf8(b.subrange(s, e));
}

/// A word's end is a character boundary of the source, and so is its start.
proof fn lemma_word_boundaries(ws: Seq<Word>, f: FileId, b: Seq<u8>, i: int)
    requires
        words_of(ws, f, b),
        valid_utf8(b),
        0 <= i < ws.len(),
    ensures
        is_char_boundary(b, ws[i].location.start.0 as int),
        is_char_boundary(b, ws[i].location.end.0 as int),
        ws[i].location.start.0 < ws[i].location.end.0 <= b.len(),
        text(ws[i]).len() == ws[i].location.end.0 - ws[i].location.start.0,
{
    assert(word_at(ws[i], f, b, spans(b)[i].0, spans(b)[i].1));
    let s = ws[i].location.start.0 as int;
    let e = ws[i].location.end.0 as int;
    if s == 0 {
        is_char_boundary_start_end_of_seq(b);
    } else {
        lemma_ascii_boundary(b, s - 1);
    }
    if e == b.len() {
        is_char_boundary_start_end_of_seq(b);
    } else {
        lemma_ascii_boundary(b, e);
    }
}

/// The end up to which the pieces of the atom at word `p` may reach: the end of its last word,
/// or the end of the source for the last atom, whose unclosed comment runs on to it.
spec fn atom_reach(ws: Seq<Word>, p: int, b: Seq<u8>) -> int {
    let step = parse_step(ws, p);
    if step.next == ws.len() {
        b.len() as int
    } else {
        ws[step.next - 1].location.end.0 as int
    }
}

/// What each case below starts from: the atom at word `p` of a source's words.
spec fn atom_at(atom: Atom, ws: Seq<Word>, f: FileId, b: Seq<u8>, p: int) -> bool {
    &&& words_of(ws, f, b)
    &&& valid_utf8(b)
    &&& b.len() <= usize::MAX
    &&& 0 <= p < ws.len()
    &&& atom_matches(atom, parse_step(ws, p), ws, b)
    &&& p < parse_step(ws, p).next <= ws.len()
    &&& atom.location == crate::parser::span(ws, p, parse_step(ws, p).next - 1)
    &&& ws[p].location.start.0 < ws[p].location.end.0 <= ws[parse_step(ws, p).next - 1].location.end.0
    &&& ws[parse_step(ws, p).next - 1].location.end.0 <= b.len()
}

proof fn lemma_command_in_order(atom: Atom, ws: Seq<Word>, f: FileId, b: Seq<u8>, p: int)
    requires
        atom_at(atom, ws, f, b, p),
        parse_step(ws, p).shape is Command,
    ensures
        ordered_within(styled_atom(atom), ws[p].location.start.0 as int, atom_reach(ws, p, b)),
{
    let step = parse_step(ws, p);
    lemma_parse_step_words(ws, p);
    let last = step.next - 1;
    let a = styled_atom(atom);
    let lo = ws[p].location.start.0 as int;
    let hi = atom_reach(ws, p, b);
    if let AtomKind::Command { name: n, arguments } = atom.kind {
        let args = arguments@;
        lemma_styled_args(args, 0);
        assert forall|k: int| 0 <= k < a.len() implies (#[trigger] a[k]).0
            == ws[p + k].location.start.0 && a[k].1 == ws[p + k].location.end.0 by {
            if k > 0 {
                assert(a[k] == styled_args(args, 0)[k - 1]);
                assert(args[k - 1] == ws[p + k]);
            }
        }
        assert forall|k: int| 0 <= k < a.len() implies lo <= (#[trigger] a[k]).0 <= a[k].1
            <= hi by {
            lemma_word_boundaries(ws, f, b, p + k);
            if k > 0 {
                assert(ws[p].location.end.0 <= ws[p + k].location.start.0);
            }
            if p + k < last {
                assert(ws[p + k].location.end.0 <= ws[last].location.start.0);
            }
        }
        assert forall|k: int| 0 < k < a.len() implies a[k - 1].1 <= (#[trigger] a[k]).0 by {
            assert(a[k - 1].1 == ws[p + k - 1].location.end.0);
            assert(ws[p + k - 1].location.end.0 <= ws[p + k].location.start.0);
        }
    }
}

proof fn lemma_comment_in_order(atom: Atom, ws: Seq<Word>, f: FileId, b: Seq<u8>, p: int)
    requires
        atom_at(atom, ws, f, b, p),
        parse_step(ws, p).shape is Comment,
    ensures
        ordered_within(styled_atom(atom), ws[p].location.start.0 as int, atom_reach(ws, p, b)),
{
    let step = parse_step(ws, p);
    lemma_parse_step_words(ws, p);
    lemma_word_boundaries(ws, f, b, p);
    if let AtomShape::Comment { open, close } = step.shape {
        match close {
            Some(q) => {
                lemma_word_boundaries(ws, f, b, q);
                assert(ws[p].location.end.0 <= ws[q].location.start.0);
                lemma_valid_between(b, ws[p].location.end.0 as int, ws[q].location.start.0 as int);
            },
            None => {
                is_char_boundary_start_end_of_seq(b);
                lemma_valid_between(b, ws[p].location.end.0 as int, b.len() as int);
            },
        }
    }
}

proof fn lemma_word_comment_in_order(atom: Atom, ws: Seq<Word>, f: FileId, b: Seq<u8>, p: int)
    requires
        atom_at(atom, ws, f, b, p),
        parse_step(ws, p).shape is WordComment,
    ensures
        ordered_within(styled_atom(atom), ws[p].location.start.0 as int, atom_reach(ws, p, b)),
{
    lemma_parse_step_words(ws, p);
    lemma_word_boundaries(ws, f, b, p);
    let t = text(ws[p]);
    lemma_str_valid(ws[p].value);
    lemma_ascii_boundary(t, 1);
    lemma_ascii_boundary(t, t.len() - 2);
    lemma_valid_between(t, 2, t.len() - 2);
}

/// The styled pieces of one atom lie in order between its first word's start and its reach.
proof fn lemma_atom_in_order(atom: Atom, ws: Seq<Word>, f: FileId, b: Seq<u8>, p: int)
    requires
        words_of(ws, f, b),
        valid_utf8(b),
        b.len() <= usize::MAX,
        0 <= p < ws.len(),
        atom_matches(atom, parse_step(ws, p), ws, b),
    ensures
        ordered_within(styled_atom(atom), ws[p].location.start.0 as int, atom_reach(ws, p, b)),
{
    let step = parse_step(ws, p);
    lemma_parse_step_advances(ws, p);
    lemma_parse_step_words(ws, p);
    lemma_parse_step_span(ws, p);
    let last = step.next - 1;
    lemma_word_boundaries(ws, f, b, p);
    lemma_word_boundaries(ws, f, b, last);
    if p < last {
        assert(ws[p].location.end.0 <= ws[last].location.start.0);
    }
    assert(atom_at(atom, ws, f, b, p));
    match step.shape {
        AtomShape::If { .. } | AtomShape::ElseIf { .. } | AtomShape::PercentChance { .. } => {
            assert(ws[p].location.end.0 <= ws[p + 1].location.start.0);
            lemma_word_boundaries(ws, f, b, p + 1);
        },
        AtomShape::Command { .. } => lemma_command_in_order(atom, ws, f, b, p),
        AtomShape::Comment { .. } => lemma_comment_in_order(atom, ws, f, b, p),
        AtomShape::WordComment { .. } => lemma_word_comment_in_order(atom, ws, f, b, p),
        _ => {},
    }
}

/// The styled pieces of the atoms from the `i`th on, read from word `p`, come in order from any
/// `l` up to the start of word `p`.
proof fn lemma_atoms_in_order(
    atoms: Seq<Atom>,
    ws: Seq<Word>,
    f: FileId,
    b: Seq<u8>,
    i: int,
    p: int,
    l: usize,
)
    requires
        words_of(ws, f, b),
        valid_utf8(b),
        b.len() <= usize::MAX,
        0 <= p <= ws.len(),
        0 <= i <= atoms.len(),
        atoms.len() - i == parse_from(ws, p).len(),
        forall|j: int|
            i <= j < atoms.len() ==> atom_matches(#[trigger] atoms[j], parse_from(ws, p)[j - i], ws, b),
        p < ws.len() ==> l <= ws[p].location.start.0,
        p == ws.len() ==> l <= b.len(),
    ensures
        pieces_in_order(styled_atoms(atoms, i), 0, l, b.len() as usize),
    decreases ws.len() - p,
{
    if p == ws.len() {
        assert(styled_atoms(atoms, i) =~= Seq::<(usize, usize, Highlight)>::empty());
    } else {
        lemma_parse_step_advances(ws, p);
        let step = parse_step(ws, p);
        assert(parse_from(ws, p) == seq![step] + parse_from(ws, step.next));
        assert(atom_matches(atoms[i], parse_from(ws, p)[0], ws, b));
        lemma_atom_in_order(atoms[i], ws, f, b, p);
        let hi = atom_reach(ws, p, b);
        if step.next < ws.len() {
            assert(ws[step.next - 1].location.end.0 <= ws[step.next].location.start.0);
        }
        assert forall|j: int| i + 1 <= j < atoms.len() implies atom_matches(
            #[trigger] atoms[j],
            parse_from(ws, step.next)[j - (i + 1)],
            ws,
            b,
        ) by {
            assert(parse_from(ws, p)[j - i] == parse_from(ws, step.next)[j - (i + 1)]);
        }
        lemma_atoms_in_order(atoms, ws, f, b, i + 1, step.next, hi as usize);
        let a = styled_atom(atoms[i]);
        assert(styled_atoms(atoms, i) == a + styled_atoms(atoms, i + 1));
        lemma_in_order_concat(a, styled_atoms(atoms, i + 1), 0, l, hi as usize, b.len() as usize);
    }
}

/// The pieces that highlighting styles come in source order: none overlaps the next, each
/// starts before it ends, and the last ends by the end of the source.
pub proof fn law_highlight_pieces_in_order(source: &str, ws: Seq<Word>, atoms: Seq<Atom>)
    requires
        source.spec_bytes().len() <= usize::MAX,
        words_of(ws, FileId(0), source.spec_bytes()),
        atoms.len() == parse_from(ws, 0).len(),
        forall|i: int|
            0 <= i < atoms.len() ==> atom_matches(
                #[trigger] atoms[i],
                parse_from(ws, 0)[i],
                ws,
                source.spec_bytes(),
            ),
    ensures
        pieces_in_order(styled_atoms(atoms, 0), 0, 0, source.spec_bytes().len() as usize),
{
    lemma_str_valid(source);
    lemma_atoms_in_order(atoms, ws, FileId(0), source.spec_bytes(), 0, 0, 0);
}

} // verus!

verus! {

/// The keyword that heads an `if`, `elseif`, `else`, `endif`, `start_random`, `end_random` or
/// `percent_chance` statement.
pub open spec fn keyword_head<'a>(atom: Atom<'a>) -> Option<Word<'a>> {
    match atom.kind {
        AtomKind::If { head, .. } => Some(head),
        AtomKind::ElseIf { head, .. } => Some(head),
        AtomKind::Else { head } => Some(head),
        AtomKind::EndIf { head } => Some(head),
        AtomKind::StartRandom { head } => Some(head),
        AtomKind::EndRandom { head } => Some(head),
        AtomKind::PercentChance { head, .. } => Some(head),
        _ => None,
    }
}

/// Every styled piece from the `k`th on turns into a segment with its range and style.
proof fn lemma_piece_is_segment(
    pieces: Seq<(usize, usize, Highlight)>,
    k: int,
    last: usize,
    len: usize,
    m: int,
)
    requires
        0 <= k <= m < pieces.len(),
    ensures
        segments_from(pieces, k, last, len).contains(
            Segment { start: pieces[m].0, end: pieces[m].1, style: pieces[m].2 },
        ),
    decreases m - k,
{
    let segs = segments_from(pieces, k, last, len);
    let rest = segments_from(pieces, k + 1, pieces[k].1, len);
    let (s, e, style) = pieces[k];
    let gap_end = if s >= last {
        s
    } else {
        last
    };
    assert(segs == seq![
        Segment { start: last, end: gap_end, style: Highlight::Plain },
        Segment { start: s, end: e, style },
    ] + rest);
    if m == k {
        assert(segs[1] == Segment { start: s, end: e, style });
    } else {
        lemma_piece_is_segment(pieces, k + 1, pieces[k].1, len, m);
        let seg = Segment { start: pieces[m].0, end: pieces[m].1, style: pieces[m].2 };
        let q = choose|q: int| 0 <= q < rest.len() && rest[q] == seg;
        assert(segs[q + 2] == seg);
    }
}

/// The keyword piece of the `i`th atom is among the styled pieces of the atoms from `j` on.
proof fn lemma_keyword_piece(atoms: Seq<Atom>, j: int, i: int)
    requires
        0 <= j <= i < atoms.len(),
        keyword_head(atoms[i]) is Some,
    ensures
        ({
            let h = keyword_head(atoms[i])->0;
            styled_atoms(atoms, j).contains((h.location.start.0, h.location.end.0, Highlight::Keyword))
        }),
    decreases i - j,
{
    let h = keyword_head(atoms[i])->0;
    let p = (h.location.start.0, h.location.end.0, Highlight::Keyword);
    let own = styled_atom(atoms[j]);
    let rest = styled_atoms(atoms, j + 1);
    assert(styled_atoms(atoms, j) == own + rest);
    if j == i {
        assert(own[0] == p);
        assert((own + rest)[0] == p);
    } else {
        lemma_keyword_piece(atoms, j + 1, i);
        let q = choose|q: int| 0 <= q < rest.len() && rest[q] == p;
        assert((own + rest)[own.len() + q] == p);
    }
}

/// Every word that heads an `if`, `elseif`, `else`, `endif`, `start_random`, `end_random` or
/// `percent_chance` statement is shown as a keyword: the segments hold one with exactly the
/// word's range and the keyword style.
pub proof fn law_keywords_highlighted(atoms: Seq<Atom>, i: int, len: usize)
    requires
        0 <= i < atoms.len(),
        keyword_head(atoms[i]) is Some,
    ensures
        ({
            let h = keyword_head(atoms[i])->0;
            segments_from(styled_atoms(atoms, 0), 0, 0, len).contains(
                Segment { start: h.location.start.0, end: h.location.end.0, style: Highlight::Keyword },
            )
        }),
{
    let pieces = styled_atoms(atoms, 0);
    lemma_keyword_piece(atoms, 0, i);
    let h = keyword_head(atoms[i])->0;
    let p = (h.location.start.0, h.location.end.0, Highlight::Keyword);
    let m = choose|m: int| 0 <= m < pieces.len() && pieces[m] == p;
    lemma_piece_is_segment(pieces, 0, 0, len, m);
}

/// The style each word of an atom is shown in: a section's name as a section; `{` and `}` as
/// syntax; the keywords of `if`, `elseif`, `else`, `endif`, `start_random`, `end_random` and
/// `percent_chance` as keywords; the condition of `if` and `elseif` as a constant; a
/// `percent_chance`'s chance as a number; a command's name as an attribute, and each of its
/// arguments as a number when all its characters are digits, else as a constant; the words that
/// open and close a comment as a comment.
pub open spec fn shown_as(atom: Atom, w: Word, style: Highlight) -> bool {
    match atom.kind {
        AtomKind::Section { name } => w == name && style == Highlight::Section,
        AtomKind::OpenBlock { head } => w == head && style == Highlight::Syntax,
        AtomKind::CloseBlock { head } => w == head && style == Highlight::Syntax,
        AtomKind::If { head, condition } => (w == head && style == Highlight::Keyword) || (w
            == condition && style == Highlight::Const),
        AtomKind::ElseIf { head, condition } => (w == head && style == Highlight::Keyword) || (w
            == condition && style == Highlight::Const),
        AtomKind::Else { head } => w == head && style == Highlight::Keyword,
        AtomKind::EndIf { head } => w == head && style == Highlight::Keyword,
        AtomKind::StartRandom { head } => w == head && style == Highlight::Keyword,
        AtomKind::EndRandom { head } => w == head && style == Highlight::Keyword,
        AtomKind::PercentChance { head, chance } => (w == head && style == Highlight::Keyword)
            || (w == chance && style == Highlight::Number),
        AtomKind::Command { name, arguments } => (w == name && style == Highlight::Attribute)
            || exists|k: int|
            0 <= k < arguments@.len() && w == #[trigger] arguments@[k] && style == (if all_digits(
                text(w),
            ) {
                Highlight::Number
            } else {
                Highlight::Const
            }),
        AtomKind::Comment { open, close, .. } => style == Highlight::Comment && (w == open
            || close == Some(w)),
        _ => false,
    }
}

/// The styled argument at `k`.
proof fn lemma_styled_arg(args: Seq<Word>, i: int, k: int)
    requires
        0 <= i <= k < args.len(),
    ensures
        styled_args(args, i).len() == args.len() - i,
        styled_args(args, i)[k - i] == styled(
            args[k],
            if all_digits(text(args[k])) {
                Highlight::Number
            } else {
                Highlight::Const
            },
        ),
    decreases k - i,
{
    lemma_styled_args(args, i);
    if i < k {
        lemma_styled_arg(args, i + 1, k);
        assert(styled_args(args, i)[k - i] == styled_args(args, i + 1)[k - i - 1]);
    }
}

/// The piece of each word that an atom shows is among the atom's styled pieces.
proof fn lemma_shown_piece(atom: Atom, w: Word, style: Highlight)
    requires
        shown_as(atom, w, style),
    ensures
        styled_atom(atom).contains((w.location.start.0, w.location.end.0, style)),
{
    let p = (w.location.start.0, w.location.end.0, style);
    let own = styled_atom(atom);
    match atom.kind {
        AtomKind::Command { name, arguments } => {
            if w == name && style == Highlight::Attribute {
                assert(own[0] == p);
            } else {
                let k = choose|k: int|
                    0 <= k < arguments@.len() && w == #[trigger] arguments@[k] && style == (if all_digits(
                        text(w),
                    ) {
                        Highlight::Number
                    } else {
                        Highlight::Const
                    });
                lemma_styled_arg(arguments@, 0, k);
                assert(own[k + 1] == p);
            }
        },
        AtomKind::Comment { open, content, close } => {
            if w == open {
                assert(own[0] == p);
            } else {
                assert(own[2] == p);
            }
        },
        AtomKind::If { head, condition } => {
            if w == head && style == Highlight::Keyword {
                assert(own[0] == p);
            } else {
                assert(own[1] == p);
            }
        },
        AtomKind::ElseIf { head, condition } => {
            if w == head && style == Highlight::Keyword {
                assert(own[0] == p);
            } else {
                assert(own[1] == p);
            }
        },
        AtomKind::PercentChance { head, chance } => {
            if w == head && style == Highlight::Keyword {
                assert(own[0] == p);
            } else {
                assert(own[1] == p);
            }
        },
        _ => {
            assert(own[0] == p);
        },
    }
}

/// The pieces of the `i`th atom are among the styled pieces of the atoms from `j` on.
proof fn lemma_atom_pieces_within(atoms: Seq<Atom>, j: int, i: int, p: (usize, usize, Highlight))
    requires
        0 <= j <= i < atoms.len(),
        styled_atom(atoms[i]).contains(p),
    ensures
        styled_atoms(atoms, j).contains(p),
    decreases i - j,
{
    let own = styled_atom(atoms[j]);
    let rest = styled_atoms(atoms, j + 1);
    assert(styled_atoms(atoms, j) == own + rest);
    if j == i {
        let q = choose|q: int| 0 <= q < own.len() && own[q] == p;
        assert((own + rest)[q] == p);
    } else {
        lemma_atom_pieces_within(atoms, j + 1, i, p);
        let q = choose|q: int| 0 <= q < rest.len() && rest[q] == p;
        assert((own + rest)[own.len() + q] == p);
    }
}

/// Every word that an atom shows is covered by a segment with exactly the word's range and the
/// style that [`shown_as`] gives it: section names, block braces, keywords, conditions, chances,
/// command names and arguments, and the ends of comments each keep their own style.
pub proof fn law_words_highlighted(atoms: Seq<Atom>, i: int, w: Word, style: Highlight, len: usize)
    requires
        0 <= i < atoms.len(),
        shown_as(atoms[i], w, style),
    ensures
        segments_from(styled_atoms(atoms, 0), 0, 0, len).contains(
            Segment { start: w.location.start.0, end: w.location.end.0, style },
        ),
{
    let pieces = styled_atoms(atoms, 0);
    let p = (w.location.start.0, w.location.end.0, style);
    lemma_shown_piece(atoms[i], w, style);
    lemma_atom_pieces_within(atoms, 0, i, p);
    let m = choose|m: int| 0 <= m < pieces.len() && pieces[m] == p;
    lemma_piece_is_segment(pieces, 0, 0, len, m);
}

} // verus!
