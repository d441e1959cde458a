//! Folding ranges of a script, for editors: comments, blocks, `if` branches and `start_random`
//! branches.

use crate::diagnostic::{FileId, SourceLocation};
use crate::parser::{atom_matches, parse_atoms, parse_from, Atom, AtomKind};
use crate::rms_file::{line_start, newlines_before, RMSFile};
use crate::wordize::{words_of, Word};
use vstd::prelude::*;

verus! {

/// The kind of a folding range.
#[derive(Debug, Clone, Copy, PartialEq, Eq, Structural)]
pub enum FoldKind {
    Comment,
}

/// A range of lines that an editor can fold away; lines and characters count from 0.
#[derive(Debug, Clone, Copy, PartialEq, Eq, Structural)]
pub struct FoldRange {
    pub start_line: usize,
    pub end_line: usize,
    pub start_character: Option<usize>,
    pub end_character: Option<usize>,
    pub kind: Option<FoldKind>,
}

/// An atom that waits for the atom that ends its folding range, with the location of the word
/// that started it.
#[derive(Debug, Clone, Copy, PartialEq, Eq, Structural)]
pub enum Waiting {
    OpenBlock(SourceLocation),
    If(SourceLocation),
    ElseIf(SourceLocation),
    Else(SourceLocation),
    StartRandom(SourceLocation),
    PercentChance(SourceLocation),
}

/// One end of a range: at the byte offset, or just beside it.
#[derive(Clone, Copy)]
pub enum Bound {
    Included(usize),
    Excluded(usize),
}

/// The line of a byte offset, offsets past the end being taken at the end.
pub open spec fn line_at(b: Seq<u8>, i: usize) -> usize {
    let j = if i <= b.len() {
        i as int
    } else {
        b.len() as int
    };
    newlines_before(b, j) as usize
}

/// The column of a byte offset, offsets past the end being taken at the end.
pub open spec fn column_at(b: Seq<u8>, i: usize) -> usize {
    let j = if i <= b.len() {
        i as int
    } else {
        b.len() as int
    };
    (j - line_start(b, j)) as usize
}

/// A range of whole lines, if it spans more than one line. The line of an excluded start is
/// the one after it, and that of an excluded end the one before it (not below 0).
pub open spec fn fold_lines(b: Seq<u8>, start: Bound, end: Bound, kind: Option<FoldKind>) -> Seq<FoldRange> {
    let start_line = match start {
        Bound::Included(i) => line_at(b, i),
        Bound::Excluded(i) => line_at(b, i).saturating_add(1),
    };
    let end_line = match end {
        Bound::Included(i) => line_at(b, i),
        Bound::Excluded(i) => line_at(b, i).saturating_sub(1),
    };
    if end_line > start_line {
        seq![FoldRange { start_line, end_line, start_character: None, end_character: None, kind }]
    } else {
        Seq::empty()
    }
}

/// A range with the characters of its ends: after an excluded start, and before an excluded
/// end.
pub open spec fn fold_chars(b: Seq<u8>, start: Bound, end: Bound, kind: Option<FoldKind>) -> FoldRange {
    let s = match start {
        Bound::Included(i) => i,
        Bound::Excluded(i) => i.saturating_add(1),
    };
    let e = match end {
        Bound::Included(i) => i,
        Bound::Excluded(i) => i.saturating_sub(1),
    };
    FoldRange {
        start_line: line_at(b, s),
        end_line: line_at(b, e),
        start_character: Some(column_at(b, s)),
        end_character: Some(column_at(b, e)),
        kind,
    }
}

/// The waiting atoms after an atom, and the ranges that the atom closes.
pub open spec fn fold_atom(b: Seq<u8>, waiting: Seq<Waiting>, atom: Atom) -> (Seq<Waiting>, Seq<FoldRange>) {
    let popped = if waiting.len() > 0 {
        waiting.drop_last()
    } else {
        waiting
    };
    let last = if waiting.len() > 0 {
        Some(waiting.last())
    } else {
        None
    };
    match atom.kind {
        AtomKind::Comment { open, close: Some(close), .. } => (
            waiting,
            fold_lines(
                b,
                Bound::Included(open.location.start.0),
                Bound::Included(close.location.start.0),
                Some(FoldKind::Comment),
            ),
        ),
        AtomKind::OpenBlock { head } => (waiting.push(Waiting::OpenBlock(head.location)), Seq::empty()),
        AtomKind::CloseBlock { head: end } => match last {
            Some(Waiting::OpenBlock(start)) => (
                popped,
                seq![
                    fold_chars(
                        b,
                        Bound::Excluded(start.end.0),
                        Bound::Excluded(end.location.start.0),
                        None,
                    ),
                ],
            ),
            _ => (popped, Seq::empty()),
        },
        AtomKind::If { head, .. } => (waiting.push(Waiting::If(head.location)), Seq::empty()),
        AtomKind::ElseIf { head: end, .. } => match last {
            Some(Waiting::If(start)) | Some(Waiting::ElseIf(start)) => (
                popped.push(Waiting::ElseIf(end.location)),
                fold_lines(b, Bound::Included(start.start.0), Bound::Excluded(end.location.start.0), None),
            ),
            _ => (popped, Seq::empty()),
        },
        AtomKind::Else { head: end } => match last {
            Some(Waiting::If(start)) | Some(Waiting::ElseIf(start)) => (
                popped.push(Waiting::Else(end.location)),
                fold_lines(b, Bound::Included(start.start.0), Bound::Excluded(end.location.start.0), None),
            ),
            _ => (popped, Seq::empty()),
        },
        AtomKind::EndIf { head: end } => match last {
            Some(Waiting::If(start)) | Some(Waiting::ElseIf(start)) | Some(Waiting::Else(start)) => (
                popped,
                fold_lines(b, Bound::Included(start.start.0), Bound::Included(end.location.start.0), None),
            ),
            _ => (popped, Seq::empty()),
        },
        AtomKind::StartRandom { head } => (waiting.push(Waiting::StartRandom(head.location)), Seq::empty()),
        AtomKind::PercentChance { head: end, .. } => match last {
            Some(Waiting::PercentChance(start)) => (
                popped.push(Waiting::PercentChance(end.location)),
                fold_lines(b, Bound::Included(start.start.0), Bound::Excluded(end.location.start.0), None),
            ),
            _ => (waiting.push(Waiting::PercentChance(end.location)), Seq::empty()),
        },
        AtomKind::EndRandom { head: end } => {
            let (w1, r1) = match last {
                Some(Waiting::PercentChance(start)) => (
                    popped,
                    fold_lines(b, Bound::Included(start.start.0), Bound::Excluded(end.location.start.0), None),
                ),
                _ => (waiting, Seq::empty()),
            };
            match if w1.len() > 0 {
                Some(w1.last())
            } else {
                None
            } {
                Some(Waiting::StartRandom(start)) => (
                    w1.drop_last(),
                    r1 + fold_lines(b, Bound::Included(start.start.0), Bound::Included(end.location.start.0), None),
                ),
                _ => (w1, r1),
            }
        },
        _ => (waiting, Seq::empty()),
    }
}

/// The ranges of the atoms from `i` on, with the atoms in `waiting` open.
pub open spec fn fold_run(b: Seq<u8>, atoms: Seq<Atom>, i: int, waiting: Seq<Waiting>) -> Seq<FoldRange>
    decreases atoms.len() - i,
{
    if i < 0 || i >= atoms.len() {
        Seq::empty()
    } else {
        let (w, r) = fold_atom(b, waiting, atoms[i]);
        r + fold_run(b, atoms, i + 1, w)
    }
}

/// The line of a byte offset.
fn line_of(b: &[u8], i: usize) -> (r: usize)
    ensures
        r == line_at(b@, i),
{
    let n = if i <= b.len() {
        i
    } else {
        b.len()
    };
    let mut line: usize = 0;
    let mut k: usize = 0;
    while k < n
        invariant
            n <= b@.len(),
            k <= n,
            line == newlines_before(b@, k as int),
            line <= k,
        decreases n - k,
    {
        if b[k] == 0x0a {
            line = line + 1;
        }
        k = k + 1;
    }
    line
}

/// The column of a byte offset.
fn column_of(b: &[u8], i: usize) -> (r: usize)
    ensures
        r == column_at(b@, i),
{
    let n = if i <= b.len() {
        i
    } else {
        b.len()
    };
    let mut start: usize = 0;
    let mut k: usize = 0;
    while k < n
        invariant
            n <= b@.len(),
            k <= n,
            start == line_start(b@, k as int),
            start <= k,
        decreases n - k,
    {
        if b[k] == 0x0a {
            start = k + 1;
        }
        k = k + 1;
    }
    n - start
}

/// Adds a range of whole lines, if it spans more than one line.
fn push_lines(r: &mut Vec<FoldRange>, b: &[u8], start: Bound, end: Bound, kind: Option<FoldKind>)
    ensures
        final(r)@ == old(r)@ + fold_lines(b@, start, end, kind),
{
    let start_line = match start {
        Bound::Included(i) => line_of(b, i),
        Bound::Excluded(i) => line_of(b, i).saturating_add(1),
    };
    let end_line = match end {
        Bound::Included(i) => line_of(b, i),
        Bound::Excluded(i) => line_of(b, i).saturating_sub(1),
    };
    let ghost before = r@;
    if end_line > start_line {
        r.push(FoldRange { start_line, end_line, start_character: None, end_character: None, kind });
        assert(r@ =~= before + fold_lines(b@, start, end, kind));
    } else {
        assert(r@ =~= before + fold_lines(b@, start, end, kind));
    }
}

/// A range with the characters of its ends.
fn chars_range(b: &[u8], start: Bound, end: Bound, kind: Option<FoldKind>) -> (r: FoldRange)
    ensures
        r == fold_chars(b@, start, end, kind),
{
    let s = match start {
        Bound::Included(i) => i,
        Bound::Excluded(i) => i.saturating_add(1),
    };
    let e = match end {
        Bound::Included(i) => i,
        Bound::Excluded(i) => i.saturating_sub(1),
    };
    FoldRange {
        start_line: line_of(b, s),
        end_line: line_of(b, e),
        start_character: Some(column_of(b, s)),
        end_character: Some(column_of(b, e)),
        kind,
    }
}

/// The last waiting atom, if any.
fn last_waiting(waiting: &Vec<Waiting>) -> (r: Option<Waiting>)
    ensures
        r == (if waiting@.len() > 0 {
            Some(waiting@.last())
        } else {
            None
        }),
{
    if waiting.len() > 0 {
        Some(waiting[waiting.len() - 1])
    } else {
        None
    }
}

/// Takes in one atom: updates the waiting atoms and adds the ranges it closes.
fn fold_step(b: &[u8], waiting: &mut Vec<Waiting>, ranges: &mut Vec<FoldRange>, atom: &Atom)
    ensures
        (final(waiting)@, final(ranges)@) == ({
            let (w, r) = fold_atom(b@, old(waiting)@, *atom);
            (w, old(ranges)@ + r)
        }),
{
    let ghost before = ranges@;
    let last = last_waiting(waiting);
    match &atom.kind {
        AtomKind::Comment { open, close: Some(close), .. } => {
            push_lines(
                ranges,
                b,
                Bound::Included(open.location.start.0),
                Bound::Included(close.location.start.0),
                Some(FoldKind::Comment),
            );
        },
        AtomKind::OpenBlock { head } => {
            waiting.push(Waiting::OpenBlock(head.location));
            assert(ranges@ =~= before + Seq::<FoldRange>::empty());
        },
        AtomKind::CloseBlock { head: end } => {
            waiting.pop();
            if let Some(Waiting::OpenBlock(start)) = last {
                ranges.push(chars_range(b, Bound::Excluded(start.end.0), Bound::Excluded(end.location.start.0), None));
            } else {
                assert(ranges@ =~= before + Seq::<FoldRange>::empty());
            }
        },
        AtomKind::If { head, .. } => {
            waiting.push(Waiting::If(head.location));
            assert(ranges@ =~= before + Seq::<FoldRange>::empty());
        },
        AtomKind::ElseIf { head: end, .. } => {
            waiting.pop();
            match last {
                Some(Waiting::If(start)) | Some(Waiting::ElseIf(start)) => {
                    push_lines(ranges, b, Bound::Included(start.start.0), Bound::Excluded(end.location.start.0), None);
                    waiting.push(Waiting::ElseIf(end.location));
                },
                _ => {
                    assert(ranges@ =~= before + Seq::<FoldRange>::empty());
                },
            }
        },
        AtomKind::Else { head: end } => {
            waiting.pop();
            match last {
                Some(Waiting::If(start)) | Some(Waiting::ElseIf(start)) => {
                    push_lines(ranges, b, Bound::Included(start.start.0), Bound::Excluded(end.location.start.0), None);
                    waiting.push(Waiting::Else(end.location));
                },
                _ => {
                    assert(ranges@ =~= before + Seq::<FoldRange>::empty());
                },
            }
        },
        AtomKind::EndIf { head: end } => {
            waiting.pop();
            match last {
                Some(Waiting::If(start)) | Some(Waiting::ElseIf(start)) | Some(Waiting::Else(start)) => {
                    push_lines(ranges, b, Bound::Included(start.start.0), Bound::Included(end.location.start.0), None);
                },
                _ => {
                    assert(ranges@ =~= before + Seq::<FoldRange>::empty());
                },
            }
        },
        AtomKind::StartRandom { head } => {
            waiting.push(Waiting::StartRandom(head.location));
            assert(ranges@ =~= before + Seq::<FoldRange>::empty());
        },
        AtomKind::PercentChance { head: end, .. } => {
            if let Some(Waiting::PercentChance(start)) = last {
                push_lines(ranges, b, Bound::Included(start.start.0), Bound::Excluded(end.location.start.0), None);
                waiting.pop();
            } else {
                assert(ranges@ =~= before + Seq::<FoldRange>::empty());
            }
            waiting.push(Waiting::PercentChance(end.location));
        },
        AtomKind::EndRandom { head: end } => {
            let ghost w0 = waiting@;
            if let Some(Waiting::PercentChance(start)) = last {
                push_lines(ranges, b, Bound::Included(start.start.0), Bound::Excluded(end.location.start.0), None);
                waiting.pop();
            } else {
                assert(ranges@ =~= before + Seq::<FoldRange>::empty());
            }
            let ghost mid = ranges@;
            if let Some(Waiting::StartRandom(start)) = last_waiting(waiting) {
                push_lines(ranges, b, Bound::Included(start.start.0), Bound::Included(end.location.start.0), None);
                waiting.pop();
            }
            assert(ranges@ =~= before + fold_atom(b@, w0, *atom).1);
        },
        _ => {
            assert(ranges@ =~= before + Seq::<FoldRange>::empty());
        },
    }
}

/// The folding ranges of the main script of a map, in the order an editor receives them.
pub struct FoldingRanges {
    ranges: Vec<FoldRange>,
    next: usize,
}

impl FoldingRanges {
    /// All ranges, in order.
    pub closed spec fn spec_ranges(&self) -> Seq<FoldRange> {
        self.ranges@
    }

    /// How many ranges were handed out.
    pub closed spec fn spec_next(&self) -> int {
        self.next as int
    }

    /// The folding ranges of the main script: for each atom, in order, the ranges it closes.
    pub fn new(file: &RMSFile) -> (r: Self)
        requires
            file.wf(),
        ensures
            r.spec_next() == 0,
            exists|ws: Seq<Word>, atoms: Seq<Atom>|
                #![trigger fold_run(file.files()[0].spec_bytes(), atoms, 0, Seq::empty()), words_of(ws, FileId(0), file.files()[0].spec_bytes())]
                {
                    let src = file.files()[0].spec_bytes();
                    &&& words_of(ws, FileId(0), src)
                    &&& atoms.len() == parse_from(ws, 0).len()
                    &&& forall|i: int| 0 <= i < atoms.len() ==> atom_matches(#[trigger] atoms[i], parse_from(ws, 0)[i], ws, src)
                    &&& r.spec_ranges() == fold_run(src, atoms, 0, Seq::empty())
                },
    {
        let source = file.main_source();
        let b = source.as_bytes();
        let atoms = parse_atoms(source);
        let mut waiting: Vec<Waiting> = Vec::new();
        let mut ranges: Vec<FoldRange> = Vec::new();
        let mut i: usize = 0;
        assert(ranges@ + fold_run(b@, atoms@, 0, waiting@) =~= fold_run(b@, atoms@, 0, Seq::empty()));
        while i < atoms.len()
            invariant
                i <= atoms@.len(),
                ranges@ + fold_run(b@, atoms@, i as int, waiting@) == fold_run(b@, atoms@, 0, Seq::empty()),
            decreases atoms@.len() - i,
        {
            let ghost w0 = waiting@;
            let ghost r0 = ranges@;
            fold_step(b, &mut waiting, &mut ranges, &atoms[i]);
            assert(r0 + fold_run(b@, atoms@, i as int, w0) =~= ranges@ + fold_run(b@, atoms@, i + 1, waiting@));
            i = i + 1;
        }
        assert(ranges@ + fold_run(b@, atoms@, i as int, waiting@) =~= ranges@);
        let r = FoldingRanges { ranges, next: 0 };
        proof {
            let src = file.files()[0].spec_bytes();
            let ws = choose|ws: Seq<Word>|
                {
                    &&& words_of(ws, FileId(0), src)
                    &&& atoms@.len() == parse_from(ws, 0).len()
                    &&& forall|i: int| 0 <= i < atoms@.len() ==> atom_matches(#[trigger] atoms@[i], parse_from(ws, 0)[i], ws, src)
                };
            assert(words_of(ws, FileId(0), src));
            assert(r.spec_ranges() == fold_run(src, atoms@, 0, Seq::empty()));
        }
        r
    }

    /// The next folding range, if any is left.
    pub fn next(&mut self) -> (r: Option<FoldRange>)
        ensures
            final(self).spec_ranges() == old(self).spec_ranges(),
            old(self).spec_next() < old(self).spec_ranges().len() ==> r == Some(old(self).spec_ranges()[old(self).spec_next()])
                && final(self).spec_next() == old(self).spec_next() + 1,
            old(self).spec_next() >= old(self).spec_ranges().len() ==> r is None && final(self).spec_next() == old(self).spec_next(),
    {
        if self.next < self.ranges.len() {
            let r = self.ranges[self.next];
            self.next = self.next + 1;
            Some(r)
        } else {
            None
        }
    }
}

} // verus!

verus! {

/// An `elseif` right after an open `if` or `elseif` branch ends that branch's fold on the line
/// before the `elseif`: the fold runs from the branch's first line to there, when that spans
/// more than one line. It then opens a branch of its own, and all of this is as an `else` in its
/// place does; an `endif` closes the `elseif` branch as it closes an `else` branch.
pub proof fn law_elseif_folds_like_else(
    b: Seq<u8>,
    w: Seq<Waiting>,
    start: SourceLocation,
    from_if: bool,
    h: Word,
    c: Word,
    endif: Atom,
)
    requires
        w.len() > 0,
        w.last() == (if from_if {
            Waiting::If(start)
        } else {
            Waiting::ElseIf(start)
        }),
        endif.kind is EndIf,
    ensures
        ({
            let e = Atom { kind: AtomKind::ElseIf { head: h, condition: c }, location: h.location };
            let f = Atom { kind: AtomKind::Else { head: h }, location: h.location };
            let (w1, r1) = fold_atom(b, w, e);
            let (w2, r2) = fold_atom(b, w, f);
            let first = line_at(b, start.start.0) as int;
            let last = line_at(b, h.location.start.0) as int - 1;
            &&& r1 == (if last > first {
                seq![
                    FoldRange {
                        start_line: first as usize,
                        end_line: last as usize,
                        start_character: None,
                        end_character: None,
                        kind: None,
                    },
                ]
            } else {
                Seq::<FoldRange>::empty()
            })
            &&& r1 == r2
            &&& w1 == w.drop_last().push(Waiting::ElseIf(h.location))
            &&& w2 == w.drop_last().push(Waiting::Else(h.location))
            &&& fold_atom(b, w1, endif).1 == fold_atom(b, w2, endif).1
            &&& fold_atom(b, w1, endif).0 == fold_atom(b, w2, endif).0
        }),
{
    let e = Atom { kind: AtomKind::ElseIf { head: h, condition: c }, location: h.location };
    let f = Atom { kind: AtomKind::Else { head: h }, location: h.location };
    let w1 = fold_atom(b, w, e).0;
    let w2 = fold_atom(b, w, f).0;
    assert(w1.drop_last() =~= w.drop_last());
    assert(w2.drop_last() =~= w.drop_last());
}

/// A fold of the lines from `first` to `last`, when that is more than one line.
pub open spec fn lines_fold(first: int, last: int) -> Seq<FoldRange> {
    if last > first {
        seq![
            FoldRange {
                start_line: first as usize,
                end_line: last as usize,
                start_character: None,
                end_character: None,
                kind: None,
            },
        ]
    } else {
        Seq::empty()
    }
}

/// An `endif` closes the open `if`, `elseif` or `else` branch: it folds from the branch's first
/// line to the line of the `endif`, and the branch is no longer open.
pub proof fn law_endif_closes_fold(b: Seq<u8>, w: Seq<Waiting>, start: SourceLocation, h: Word)
    requires
        w.len() > 0,
        w.last() == Waiting::If(start) || w.last() == Waiting::ElseIf(start) || w.last()
            == Waiting::Else(start),
    ensures
        fold_atom(b, w, Atom { kind: AtomKind::EndIf { head: h }, location: h.location }) == (
            w.drop_last(),
            lines_fold(line_at(b, start.start.0) as int, line_at(b, h.location.start.0) as int),
        ),
{
}

/// A `}` closes the open block: it folds from just after the `{` to just before the `}`, with
/// the characters of both ends, and the block is no longer open.
pub proof fn law_close_block_folds(b: Seq<u8>, w: Seq<Waiting>, start: SourceLocation, h: Word)
    requires
        w.len() > 0,
        w.last() == Waiting::OpenBlock(start),
    ensures
        ({
            let from = start.end.0.saturating_add(1);
            let to = h.location.start.0.saturating_sub(1);
            fold_atom(b, w, Atom { kind: AtomKind::CloseBlock { head: h }, location: h.location })
                == (
                w.drop_last(),
                seq![
                    FoldRange {
                        start_line: line_at(b, from),
                        end_line: line_at(b, to),
                        start_character: Some(column_at(b, from)),
                        end_character: Some(column_at(b, to)),
                        kind: None,
                    },
                ],
            )
        }),
{
}

/// A `percent_chance` after another ends the previous branch's fold on the line before it and
/// opens its own branch; after a `start_random` it only opens its own branch.
pub proof fn law_percent_chance_folds(b: Seq<u8>, w: Seq<Waiting>, start: SourceLocation, h: Word, c: Word)
    requires
        w.len() > 0,
        w.last() == Waiting::PercentChance(start) || w.last() == Waiting::StartRandom(start),
    ensures
        fold_atom(
            b,
            w,
            Atom { kind: AtomKind::PercentChance { head: h, chance: c }, location: h.location },
        ) == if w.last() == Waiting::PercentChance(start) {
            (
                w.drop_last().push(Waiting::PercentChance(h.location)),
                lines_fold(line_at(b, start.start.0) as int, line_at(b, h.location.start.0) as int - 1),
            )
        } else {
            (w.push(Waiting::PercentChance(h.location)), Seq::empty())
        },
{
}

/// An `end_random` closes the last branch, folding it up to the line before it, and then the
/// `start_random`, folding it up to its own line; both are then no longer open.
pub proof fn law_end_random_folds(
    b: Seq<u8>,
    w: Seq<Waiting>,
    group: SourceLocation,
    branch: SourceLocation,
    h: Word,
)
    requires
        w.len() > 1,
        w.last() == Waiting::PercentChance(branch),
        w[w.len() - 2] == Waiting::StartRandom(group),
    ensures
        fold_atom(b, w, Atom { kind: AtomKind::EndRandom { head: h }, location: h.location }) == (
            w.drop_last().drop_last(),
            lines_fold(line_at(b, branch.start.0) as int, line_at(b, h.location.start.0) as int - 1)
                + lines_fold(line_at(b, group.start.0) as int, line_at(b, h.location.start.0) as int),
        ),
{
    assert(w.drop_last().last() == w[w.len() - 2]);
}

/// A closed comment folds, as a comment, from the line of its opening `/*` to the line where
/// its closing `*/` starts, when that is more than one line; it leaves the open blocks and
/// branches as they were. An unclosed comment folds nothing.
pub proof fn law_comment_folds(b: Seq<u8>, w: Seq<Waiting>, open: Word, content: String, close: Option<Word>)
    ensures
        ({
            let atom = Atom {
                kind: AtomKind::Comment { open, content, close },
                location: open.location,
            };
            fold_atom(b, w, atom) == (w, match close {
                Some(c) => {
                    let first = line_at(b, open.location.start.0);
                    let last = line_at(b, c.location.start.0);
                    if last > first {
                        seq![
                            FoldRange {
                                start_line: first,
                                end_line: last,
                                start_character: None,
                                end_character: None,
                                kind: Some(FoldKind::Comment),
                            },
                        ]
                    } else {
                        Seq::empty()
                    }
                },
                None => Seq::empty(),
            })
        }),
{
}

} // verus!
