//! How the nesting of blocks, `if` groups and `random` groups behaves over sequences of atoms:
//! every well-nested sequence leaves the stack of open constructs as it was, with no warning.
//!
//! A sequence is well nested when it is built from atoms of other kinds by putting sequences
//! one after another, wrapping one in `{` .. `}`, and making `if` groups
//! (`if` X (`elseif` X)* (`else` X)? `endif`) and `random` groups
//! (`start_random` X (`percent_chance` X)* `end_random`). The laws below follow that
//! construction: each shows that one way of building keeps the property, and
//! [`law_nested_balanced`] puts them together for every sequence that [`Nested`] builds.

use crate::diagnostic::SourceLocation;
use crate::parser::{Atom, AtomKind};
use crate::state::{nesting_step, NestingKind};
use vstd::prelude::*;

verus! {

broadcast use vstd::seq::group_seq_axioms;

/// The stack after the atoms, one [`nesting_step`] after another, and whether none of them
/// raised a warning.
pub open spec fn run_nesting(stack: Seq<(NestingKind, SourceLocation)>, atoms: Seq<Atom>) -> (
    Seq<(NestingKind, SourceLocation)>,
    bool,
)
    decreases atoms.len(),
{
    if atoms.len() == 0 {
        (stack, true)
    } else {
        let (s1, e) = nesting_step(stack, atoms[0]);
        let (s2, ok) = run_nesting(s1, atoms.drop_first());
        (s2, e is None && ok)
    }
}

/// From every stack, the atoms leave the stack as it was, with no warning.
pub open spec fn balanced(atoms: Seq<Atom>) -> bool {
    forall|s: Seq<(NestingKind, SourceLocation)>| #[trigger] run_nesting(s, atoms) == (s, true)
}

/// From every stack, the atoms add one open construct of a kind that `ok_kind` allows, with no
/// warning.
pub open spec fn opens_one(atoms: Seq<Atom>, a: NestingKind, b: NestingKind) -> bool {
    forall|s: Seq<(NestingKind, SourceLocation)>|
        {
            let r = #[trigger] run_nesting(s, atoms);
            &&& r.1
            &&& r.0.len() == s.len() + 1
            &&& r.0.drop_last() == s
            &&& (r.0.last().0 == a || r.0.last().0 == b)
        }
}

/// From every stack, the atoms leave a `start_random` with a `percent_chance` on it, with no
/// warning.
pub open spec fn opens_chance(atoms: Seq<Atom>) -> bool {
    forall|s: Seq<(NestingKind, SourceLocation)>|
        {
            let r = #[trigger] run_nesting(s, atoms);
            &&& r.1
            &&& r.0.len() == s.len() + 2
            &&& r.0.take(s.len() as int) == s
            &&& r.0[s.len() as int].0 == NestingKind::StartRandom
            &&& r.0.last().0 == NestingKind::PercentChance
        }
}

/// Running over two sequences one after the other is running over the first, then the second.
pub proof fn lemma_run_concat(
    stack: Seq<(NestingKind, SourceLocation)>,
    a: Seq<Atom>,
    b: Seq<Atom>,
)
    ensures
        run_nesting(stack, a + b) == (
            run_nesting(run_nesting(stack, a).0, b).0,
            run_nesting(stack, a).1 && run_nesting(run_nesting(stack, a).0, b).1,
        ),
    decreases a.len(),
{
    if a.len() == 0 {
        assert(a + b =~= b);
    } else {
        let s1 = nesting_step(stack, a[0]).0;
        lemma_run_concat(s1, a.drop_first(), b);
        assert((a + b).drop_first() =~= a.drop_first() + b);
        assert((a + b)[0] == a[0]);
    }
}

/// One atom alone.
proof fn lemma_run_one(stack: Seq<(NestingKind, SourceLocation)>, a: Atom)
    ensures
        run_nesting(stack, seq![a]) == (nesting_step(stack, a).0, nesting_step(stack, a).1 is None),
{
    assert(seq![a].drop_first() =~= Seq::<Atom>::empty());
    assert(seq![a][0] == a);
    let s1 = nesting_step(stack, a).0;
    assert(run_nesting(s1, Seq::<Atom>::empty()) == (s1, true));
}

/// Atoms of other kinds than the nesting ones leave the stack as it was, with no warning;
/// nothing at all does the same; and two balanced sequences one after the other are balanced.
pub proof fn law_balanced_sequences(a: Atom, x: Seq<Atom>, y: Seq<Atom>)
    requires
        !(a.kind is OpenBlock || a.kind is CloseBlock || a.kind is If || a.kind is ElseIf
            || a.kind is Else || a.kind is EndIf || a.kind is StartRandom
            || a.kind is PercentChance || a.kind is EndRandom),
    ensures
        balanced(seq![a]),
        balanced(Seq::<Atom>::empty()),
        balanced(x) && balanced(y) ==> balanced(x + y),
{
    assert forall|s: Seq<(NestingKind, SourceLocation)>| #[trigger]
        run_nesting(s, seq![a]) == (s, true) by {
        lemma_run_one(s, a);
    }
    assert forall|s: Seq<(NestingKind, SourceLocation)>| #[trigger]
        run_nesting(s, Seq::<Atom>::empty()) == (s, true) by {}
    if balanced(x) && balanced(y) {
        assert forall|s: Seq<(NestingKind, SourceLocation)>| #[trigger]
            run_nesting(s, x + y) == (s, true) by {
            lemma_run_concat(s, x, y);
            assert(run_nesting(s, x) == (s, true));
            assert(run_nesting(s, y) == (s, true));
        }
    }
}

/// A balanced sequence between `{` and `}` is balanced.
pub proof fn law_block_nesting(open: Atom, x: Seq<Atom>, close: Atom)
    requires
        open.kind is OpenBlock,
        close.kind is CloseBlock,
        balanced(x),
    ensures
        balanced(seq![open] + x + seq![close]),
{
    assert forall|s: Seq<(NestingKind, SourceLocation)>| #[trigger]
        run_nesting(s, seq![open] + x + seq![close]) == (s, true) by {
        let s1 = s.push((NestingKind::Brace, open.location));
        lemma_run_concat(s, seq![open] + x, seq![close]);
        lemma_run_concat(s, seq![open], x);
        lemma_run_one(s, open);
        assert(run_nesting(s1, x) == (s1, true));
        lemma_run_one(s1, close);
        assert(s1.drop_last() =~= s);
    }
}

/// `if` and a balanced sequence open an `if` branch.
pub proof fn law_if_opens(head: Atom, x: Seq<Atom>)
    requires
        head.kind is If,
        balanced(x),
    ensures
        opens_one(seq![head] + x, NestingKind::If, NestingKind::ElseIf),
{
    assert forall|s: Seq<(NestingKind, SourceLocation)>| {
        let r = #[trigger] run_nesting(s, seq![head] + x);
        &&& r.1
        &&& r.0.len() == s.len() + 1
        &&& r.0.drop_last() == s
        &&& (r.0.last().0 == NestingKind::If || r.0.last().0 == NestingKind::ElseIf)
    } by {
        let s1 = s.push((NestingKind::If, head.location));
        lemma_run_concat(s, seq![head], x);
        lemma_run_one(s, head);
        assert(run_nesting(s1, x) == (s1, true));
        assert(s1.drop_last() =~= s);
    }
}

/// After an open `if` or `elseif` branch, `elseif` and a balanced sequence open an `elseif`
/// branch in its place.
pub proof fn law_elseif_continues(prefix: Seq<Atom>, head: Atom, x: Seq<Atom>)
    requires
        opens_one(prefix, NestingKind::If, NestingKind::ElseIf),
        head.kind is ElseIf,
        balanced(x),
    ensures
        opens_one(prefix + seq![head] + x, NestingKind::If, NestingKind::ElseIf),
{
    assert forall|s: Seq<(NestingKind, SourceLocation)>| {
        let r = #[trigger] run_nesting(s, prefix + seq![head] + x);
        &&& r.1
        &&& r.0.len() == s.len() + 1
        &&& r.0.drop_last() == s
        &&& (r.0.last().0 == NestingKind::If || r.0.last().0 == NestingKind::ElseIf)
    } by {
        let p = run_nesting(s, prefix);
        let s2 = p.0.drop_last().push((NestingKind::ElseIf, head.location));
        lemma_run_concat(s, prefix + seq![head], x);
        lemma_run_concat(s, prefix, seq![head]);
        lemma_run_one(p.0, head);
        assert(run_nesting(s2, x) == (s2, true));
        assert(s2.drop_last() =~= s);
    }
}

/// After an open `if` or `elseif` branch, `else` and a balanced sequence open an `else`
/// branch in its place.
pub proof fn law_else_continues(prefix: Seq<Atom>, head: Atom, x: Seq<Atom>)
    requires
        opens_one(prefix, NestingKind::If, NestingKind::ElseIf),
        head.kind is Else,
        balanced(x),
    ensures
        opens_one(prefix + seq![head] + x, NestingKind::Else, NestingKind::Else),
{
    assert forall|s: Seq<(NestingKind, SourceLocation)>| {
        let r = #[trigger] run_nesting(s, prefix + seq![head] + x);
        &&& r.1
        &&& r.0.len() == s.len() + 1
        &&& r.0.drop_last() == s
        &&& (r.0.last().0 == NestingKind::Else || r.0.last().0 == NestingKind::Else)
    } by {
        let p = run_nesting(s, prefix);
        let s2 = p.0.drop_last().push((NestingKind::Else, head.location));
        lemma_run_concat(s, prefix + seq![head], x);
        lemma_run_concat(s, prefix, seq![head]);
        lemma_run_one(p.0, head);
        assert(run_nesting(s2, x) == (s2, true));
        assert(s2.drop_last() =~= s);
    }
}

/// An open `if`, `elseif` or `else` branch closed by `endif` is balanced.
pub proof fn law_endif_closes(prefix: Seq<Atom>, close: Atom)
    requires
        opens_one(prefix, NestingKind::If, NestingKind::ElseIf) || opens_one(
            prefix,
            NestingKind::Else,
            NestingKind::Else,
        ),
        close.kind is EndIf,
    ensures
        balanced(prefix + seq![close]),
{
    assert forall|s: Seq<(NestingKind, SourceLocation)>| #[trigger]
        run_nesting(s, prefix + seq![close]) == (s, true) by {
        let p = run_nesting(s, prefix);
        lemma_run_concat(s, prefix, seq![close]);
        lemma_run_one(p.0, close);
    }
}

/// `start_random` and a balanced sequence open a `random` group.
pub proof fn law_random_opens(head: Atom, x: Seq<Atom>)
    requires
        head.kind is StartRandom,
        balanced(x),
    ensures
        opens_one(seq![head] + x, NestingKind::StartRandom, NestingKind::StartRandom),
{
    assert forall|s: Seq<(NestingKind, SourceLocation)>| {
        let r = #[trigger] run_nesting(s, seq![head] + x);
        &&& r.1
        &&& r.0.len() == s.len() + 1
        &&& r.0.drop_last() == s
        &&& (r.0.last().0 == NestingKind::StartRandom || r.0.last().0 == NestingKind::StartRandom)
    } by {
        let s1 = s.push((NestingKind::StartRandom, head.location));
        lemma_run_concat(s, seq![head], x);
        lemma_run_one(s, head);
        assert(run_nesting(s1, x) == (s1, true));
        assert(s1.drop_last() =~= s);
    }
}

/// In an open `random` group, `percent_chance` and a balanced sequence open a branch, in
/// place of the previous branch if there is one.
pub proof fn law_percent_chance_continues(prefix: Seq<Atom>, head: Atom, x: Seq<Atom>)
    requires
        opens_one(prefix, NestingKind::StartRandom, NestingKind::StartRandom) || opens_chance(
            prefix,
        ),
        head.kind is PercentChance,
        balanced(x),
    ensures
        opens_chance(prefix + seq![head] + x),
{
    assert forall|s: Seq<(NestingKind, SourceLocation)>| {
        let r = #[trigger] run_nesting(s, prefix + seq![head] + x);
        &&& r.1
        &&& r.0.len() == s.len() + 2
        &&& r.0.take(s.len() as int) == s
        &&& r.0[s.len() as int].0 == NestingKind::StartRandom
        &&& r.0.last().0 == NestingKind::PercentChance
    } by {
        let p = run_nesting(s, prefix);
        let base = if p.0.len() == s.len() + 2 {
            p.0.drop_last()
        } else {
            p.0
        };
        let s2 = base.push((NestingKind::PercentChance, head.location));
        lemma_run_concat(s, prefix + seq![head], x);
        lemma_run_concat(s, prefix, seq![head]);
        lemma_run_one(p.0, head);
        if p.0.len() == s.len() + 2 {
            assert(base =~= p.0.take(s.len() + 1int));
            assert(base =~= s.push(p.0[s.len() as int]));
        } else {
            assert(base =~= s.push(p.0.last()));
        }
        assert(nesting_step(p.0, head).0 == s2);
        assert(run_nesting(s2, x) == (s2, true));
        assert(s2.take(s.len() as int) =~= s);
    }
}

/// An open `random` group, with or without branches, closed by `end_random` is balanced.
pub proof fn law_end_random_closes(prefix: Seq<Atom>, close: Atom)
    requires
        opens_one(prefix, NestingKind::StartRandom, NestingKind::StartRandom) || opens_chance(
            prefix,
        ),
        close.kind is EndRandom,
    ensures
        balanced(prefix + seq![close]),
{
    assert forall|s: Seq<(NestingKind, SourceLocation)>| #[trigger]
        run_nesting(s, prefix + seq![close]) == (s, true) by {
        let p = run_nesting(s, prefix);
        lemma_run_concat(s, prefix, seq![close]);
        lemma_run_one(p.0, close);
        if p.0.len() == s.len() + 2 {
            assert(p.0.drop_last() =~= s.push(p.0[s.len() as int]));
            assert(p.0.drop_last().drop_last() =~= s);
        } else {
            assert(p.0.drop_last() =~= s);
        }
    }
}

/// The way a well-nested sequence of atoms is built.
pub enum Nested<'a> {
    /// Nothing.
    Empty,
    /// One sequence after another.
    Then(Box<Nested<'a>>, Box<Nested<'a>>),
    /// An atom of another kind than the nesting ones.
    Plain(Atom<'a>),
    /// A sequence between `{` and `}`.
    Block(Atom<'a>, Box<Nested<'a>>, Atom<'a>),
    /// `if`, its branch, and the rest of the group.
    IfGroup(Atom<'a>, Box<Nested<'a>>, Box<IfRest<'a>>),
    /// `start_random`, what stands before the first `percent_chance`, and the rest of the group.
    RandomGroup(Atom<'a>, Box<Nested<'a>>, Box<RandomRest<'a>>),
}

/// What follows an open `if` or `elseif` branch.
pub enum IfRest<'a> {
    /// `endif`.
    EndIf(Atom<'a>),
    /// `elseif`, its branch, and the rest of the group.
    ElseIf(Atom<'a>, Box<Nested<'a>>, Box<IfRest<'a>>),
    /// `else`, its branch, and `endif`.
    Else(Atom<'a>, Box<Nested<'a>>, Atom<'a>),
}

/// What follows in an open `random` group.
pub enum RandomRest<'a> {
    /// `end_random`.
    EndRandom(Atom<'a>),
    /// `percent_chance`, its branch, and the rest of the group.
    Chance(Atom<'a>, Box<Nested<'a>>, Box<RandomRest<'a>>),
}

/// Is the atom of one of the kinds that open, continue or close a nesting construct?
pub open spec fn is_nesting_atom(a: Atom) -> bool {
    a.kind is OpenBlock || a.kind is CloseBlock || a.kind is If || a.kind is ElseIf
        || a.kind is Else || a.kind is EndIf || a.kind is StartRandom
        || a.kind is PercentChance || a.kind is EndRandom
}

/// The atoms have the kinds that their places in the construction call for.
pub open spec fn nested_ok(n: Nested) -> bool
    decreases n,
{
    match n {
        Nested::Empty => true,
        Nested::Then(x, y) => nested_ok(*x) && nested_ok(*y),
        Nested::Plain(a) => !is_nesting_atom(a),
        Nested::Block(o, x, c) => o.kind is OpenBlock && nested_ok(*x) && c.kind is CloseBlock,
        Nested::IfGroup(h, x, r) => h.kind is If && nested_ok(*x) && if_rest_ok(*r),
        Nested::RandomGroup(h, x, r) => h.kind is StartRandom && nested_ok(*x) && random_rest_ok(
            *r,
        ),
    }
}

/// The atoms of the rest of an `if` group have the kinds that their places call for.
pub open spec fn if_rest_ok(r: IfRest) -> bool
    decreases r,
{
    match r {
        IfRest::EndIf(c) => c.kind is EndIf,
        IfRest::ElseIf(h, x, rest) => h.kind is ElseIf && nested_ok(*x) && if_rest_ok(*rest),
        IfRest::Else(h, x, c) => h.kind is Else && nested_ok(*x) && c.kind is EndIf,
    }
}

/// The atoms of the rest of a `random` group have the kinds that their places call for.
pub open spec fn random_rest_ok(r: RandomRest) -> bool
    decreases r,
{
    match r {
        RandomRest::EndRandom(c) => c.kind is EndRandom,
        RandomRest::Chance(h, x, rest) => h.kind is PercentChance && nested_ok(*x)
            && random_rest_ok(*rest),
    }
}

/// The atoms that a construction stands for, in order.
pub open spec fn nested_atoms<'a>(n: Nested<'a>) -> Seq<Atom<'a>>
    decreases n,
{
    match n {
        Nested::Empty => Seq::empty(),
        Nested::Then(x, y) => nested_atoms(*x) + nested_atoms(*y),
        Nested::Plain(a) => seq![a],
        Nested::Block(o, x, c) => seq![o] + nested_atoms(*x) + seq![c],
        Nested::IfGroup(h, x, r) => seq![h] + nested_atoms(*x) + if_rest_atoms(*r),
        Nested::RandomGroup(h, x, r) => seq![h] + nested_atoms(*x) + random_rest_atoms(*r),
    }
}

/// The atoms of the rest of an `if` group, in order.
pub open spec fn if_rest_atoms<'a>(r: IfRest<'a>) -> Seq<Atom<'a>>
    decreases r,
{
    match r {
        IfRest::EndIf(c) => seq![c],
        IfRest::ElseIf(h, x, rest) => seq![h] + nested_atoms(*x) + if_rest_atoms(*rest),
        IfRest::Else(h, x, c) => seq![h] + nested_atoms(*x) + seq![c],
    }
}

/// The atoms of the rest of a `random` group, in order.
pub open spec fn random_rest_atoms<'a>(r: RandomRest<'a>) -> Seq<Atom<'a>>
    decreases r,
{
    match r {
        RandomRest::EndRandom(c) => seq![c],
        RandomRest::Chance(h, x, rest) => seq![h] + nested_atoms(*x) + random_rest_atoms(*rest),
    }
}

/// Every well-nested sequence of atoms, built from atoms of other kinds, blocks, `if` groups
/// and `random` groups, leaves the nesting stack as it was, whatever it was, and no atom of it
/// raises a warning.
pub proof fn law_nested_balanced(n: Nested)
    requires
        nested_ok(n),
    ensures
        balanced(nested_atoms(n)),
    decreases n,
{
    match n {
        Nested::Empty => {
            law_balanced_sequences_empty();
        },
        Nested::Then(x, y) => {
            law_nested_balanced(*x);
            law_nested_balanced(*y);
            lemma_balanced_concat(nested_atoms(*x), nested_atoms(*y));
        },
        Nested::Plain(a) => {
            law_balanced_sequences(a, Seq::empty(), Seq::empty());
        },
        Nested::Block(o, x, c) => {
            law_nested_balanced(*x);
            law_block_nesting(o, nested_atoms(*x), c);
        },
        Nested::IfGroup(h, x, r) => {
            law_nested_balanced(*x);
            law_if_opens(h, nested_atoms(*x));
            lemma_if_rest_balanced(seq![h] + nested_atoms(*x), *r);
        },
        Nested::RandomGroup(h, x, r) => {
            law_nested_balanced(*x);
            law_random_opens(h, nested_atoms(*x));
            lemma_random_rest_balanced(seq![h] + nested_atoms(*x), *r);
        },
    }
}

/// Nothing at all is balanced.
proof fn law_balanced_sequences_empty()
    ensures
        balanced(Seq::<Atom>::empty()),
{
    assert forall|s: Seq<(NestingKind, SourceLocation)>| #[trigger]
        run_nesting(s, Seq::<Atom>::empty()) == (s, true) by {}
}

/// Two balanced sequences one after the other are balanced.
proof fn lemma_balanced_concat(x: Seq<Atom>, y: Seq<Atom>)
    requires
        balanced(x),
        balanced(y),
    ensures
        balanced(x + y),
{
    assert forall|s: Seq<(NestingKind, SourceLocation)>| #[trigger]
        run_nesting(s, x + y) == (s, true) by {
        lemma_run_concat(s, x, y);
        assert(run_nesting(s, x) == (s, true));
        assert(run_nesting(s, y) == (s, true));
    }
}

/// An open `if` or `elseif` branch followed by the rest of its group is balanced.
proof fn lemma_if_rest_balanced(prefix: Seq<Atom>, r: IfRest)
    requires
        opens_one(prefix, NestingKind::If, NestingKind::ElseIf),
        if_rest_ok(r),
    ensures
        balanced(prefix + if_rest_atoms(r)),
    decreases r,
{
    match r {
        IfRest::EndIf(c) => {
            law_endif_closes(prefix, c);
        },
        IfRest::ElseIf(h, x, rest) => {
            law_nested_balanced(*x);
            law_elseif_continues(prefix, h, nested_atoms(*x));
            lemma_if_rest_balanced(prefix + seq![h] + nested_atoms(*x), *rest);
            assert(prefix + if_rest_atoms(r) =~= prefix + seq![h] + nested_atoms(*x) + if_rest_atoms(
                *rest,
            ));
        },
        IfRest::Else(h, x, c) => {
            law_nested_balanced(*x);
            law_else_continues(prefix, h, nested_atoms(*x));
            law_endif_closes(prefix + seq![h] + nested_atoms(*x), c);
            assert(prefix + if_rest_atoms(r) =~= prefix + seq![h] + nested_atoms(*x) + seq![c]);
        },
    }
}

/// An open `random` group, with or without a branch, followed by the rest of the group is
/// balanced.
proof fn lemma_random_rest_balanced(prefix: Seq<Atom>, r: RandomRest)
    requires
        opens_one(prefix, NestingKind::StartRandom, NestingKind::StartRandom) || opens_chance(
            prefix,
        ),
        random_rest_ok(r),
    ensures
        balanced(prefix + random_rest_atoms(r)),
    decreases r,
{
    match r {
        RandomRest::EndRandom(c) => {
            law_end_random_closes(prefix, c);
        },
        RandomRest::Chance(h, x, rest) => {
            law_nested_balanced(*x);
            law_percent_chance_continues(prefix, h, nested_atoms(*x));
            lemma_random_rest_balanced(prefix + seq![h] + nested_atoms(*x), *rest);
            assert(prefix + random_rest_atoms(r) =~= prefix + seq![h] + nested_atoms(*x)
                + random_rest_atoms(*rest));
        },
    }
}

} // verus!
