//! A word splitter for map script sources, with location tracking.

use crate::diagnostic::{ByteIndex, FileId, SourceLocation};
use crate::text::{ascii_ws, is_ascii_ws, lemma_ascii_boundary, lemma_str_valid, str_slice};
use vstd::prelude::*;
use vstd::string::*;
use vstd::utf8::*;

verus! {

broadcast use vstd::seq::group_seq_axioms;

/// Represents a word.
#[derive(Clone, Copy, Debug, PartialEq, Eq)]
pub struct Word<'a> {
    /// The characters in this word.
    pub value: &'a str,
    /// Source code location for this word.
    pub location: SourceLocation,
}

impl<'a> Word<'a> {
    /// Get the position of the first character in this word.
    pub fn start(&self) -> (r: ByteIndex)
        ensures
            r == self.location.start,
    {
        self.location.start
    }

    /// Get the position of the character just past this word.
    pub fn end(&self) -> (r: ByteIndex)
        ensures
            r == self.location.end,
    {
        self.location.end
    }
}

/// The first position at or after `p` that does not hold ASCII whitespace, or the end.
pub open spec fn skip_ws(b: Seq<u8>, p: int) -> int
    decreases b.len() - p,
{
    if p < 0 || p >= b.len() {
        b.len() as int
    } else if is_ascii_ws(b[p]) {
        skip_ws(b, p + 1)
    } else {
        p
    }
}

/// The first position at or after `p` that holds ASCII whitespace, or the end.
pub open spec fn word_end(b: Seq<u8>, p: int) -> int
    decreases b.len() - p,
{
    if p < 0 || p >= b.len() {
        b.len() as int
    } else if is_ascii_ws(b[p]) {
        p
    } else {
        word_end(b, p + 1)
    }
}

/// The byte range of the next word at or after `p`, if there is one.
pub open spec fn next_span(b: Seq<u8>, p: int) -> Option<(int, int)> {
    let s = skip_ws(b, p);
    if s >= b.len() {
        None
    } else {
        Some((s, word_end(b, s)))
    }
}

/// Where scanning continues after a word that ends at `e`: past the whitespace byte that ended
/// it.
pub open spec fn after_span(b: Seq<u8>, e: int) -> int {
    if e < b.len() {
        e + 1
    } else {
        b.len() as int
    }
}

pub proof fn lemma_skip_ws_bounds(b: Seq<u8>, p: int)
    requires
        0 <= p,
    ensures
        p <= skip_ws(b, p) || skip_ws(b, p) == b.len(),
        skip_ws(b, p) <= b.len(),
        skip_ws(b, p) < b.len() ==> !is_ascii_ws(b[skip_ws(b, p)]),
        forall|i: int| p <= i < skip_ws(b, p) ==> is_ascii_ws(#[trigger] b[i]),
    decreases b.len() - p,
{
    if p < b.len() && is_ascii_ws(b[p]) {
        lemma_skip_ws_bounds(b, p + 1);
    }
}

pub proof fn lemma_word_end_bounds(b: Seq<u8>, p: int)
    requires
        0 <= p,
    ensures
        p <= word_end(b, p) || word_end(b, p) == b.len(),
        word_end(b, p) <= b.len(),
        word_end(b, p) < b.len() ==> is_ascii_ws(b[word_end(b, p)]),
        forall|i: int| p <= i < word_end(b, p) ==> !is_ascii_ws(#[trigger] b[i]),
    decreases b.len() - p,
{
    if p < b.len() && !is_ascii_ws(b[p]) {
        lemma_word_end_bounds(b, p + 1);
    }
}

/// The byte ranges of all words at or after `p`, in order.
pub open spec fn spans_from(b: Seq<u8>, p: int) -> Seq<(int, int)>
    decreases b.len() - p,
{
    if p < 0 || p >= b.len() {
        Seq::empty()
    } else {
        match next_span(b, p) {
            None => Seq::empty(),
            Some(span) => {
                proof {
                    lemma_skip_ws_bounds(b, p);
                    lemma_word_end_bounds(b, span.0);
                }
                seq![span] + spans_from(b, after_span(b, span.1))
            },
        }
    }
}

/// The byte ranges of all words of a source text.
pub open spec fn spans(b: Seq<u8>) -> Seq<(int, int)> {
    spans_from(b, 0)
}

/// `w` is the word of `file` whose bytes in `b` lie between `s` and `e`.
pub open spec fn word_at(w: Word, file: FileId, b: Seq<u8>, s: int, e: int) -> bool {
    &&& w.location.file == file
    &&& w.location.start.0 == s
    &&& w.location.end.0 == e
    &&& 0 <= s < e <= b.len()
    &&& w.value.spec_bytes() == b.subrange(s, e)
    &&& (s == 0 || is_ascii_ws(b[s - 1]))
    &&& (e == b.len() || is_ascii_ws(b[e]))
}

/// `words` are the words of the source bytes `b`, as [`Tokenizer`] finds them.
pub open spec fn words_of(words: Seq<Word>, file: FileId, b: Seq<u8>) -> bool {
    &&& words.len() == spans(b).len()
    &&& forall|i: int|
        0 <= i < words.len() ==> word_at(#[trigger] words[i], file, b, spans(b)[i].0, spans(b)[i].1)
    &&& forall|i: int, j: int|
        0 <= i < j < words.len() ==> #[trigger] words[i].location.end.0 <= #[trigger] words[j].location.start.0
}

/// Iterator over words in a string, with their start and end positions.
#[derive(Debug)]
pub struct Tokenizer<'a> {
    file: FileId,
    source: &'a str,
    pos: usize,
}

impl<'a> Tokenizer<'a> {
    /// The file the words belong to.
    pub closed spec fn file(&self) -> FileId {
        self.file
    }

    /// The bytes of the source being split.
    pub closed spec fn bytes(&self) -> Seq<u8> {
        self.source.spec_bytes()
    }

    /// The position where scanning resumes.
    pub closed spec fn pos(&self) -> int {
        self.pos as int
    }

    /// Scanning resumes at the start, at the end, or just after a whitespace byte.
    pub closed spec fn wf(&self) -> bool {
        &&& self.pos <= self.source.spec_bytes().len()
        &&& (self.pos == 0 || self.pos == self.source.spec_bytes().len() || is_ascii_ws(
            self.source.spec_bytes()[self.pos - 1],
        ))
    }

    /// Create an iterator over the `source` string's words.
    pub fn new(file_id: FileId, source: &'a str) -> (r: Self)
        ensures
            r.wf(),
            r.file() == file_id,
            r.bytes() == source.spec_bytes(),
            r.pos() == 0,
    {
        Tokenizer { file: file_id, source, pos: 0 }
    }

    /// Get the next word.
    pub fn next(&mut self) -> (r: Option<Word<'a>>)
        requires
            old(self).wf(),
        ensures
            final(self).wf(),
            final(self).file() == old(self).file(),
            final(self).bytes() == old(self).bytes(),
            match next_span(old(self).bytes(), old(self).pos()) {
                None => r is None && final(self).pos() == old(self).bytes().len(),
                Some(span) => r matches Some(w) && word_at(
                    w,
                    old(self).file(),
                    old(self).bytes(),
                    span.0,
                    span.1,
                ) && final(self).pos() == after_span(old(self).bytes(), span.1),
            },
    {
        let b = self.source.as_bytes();
        let len = b.len();
        let ghost p0 = self.pos as int;
        let mut p = self.pos;
        proof {
            lemma_skip_ws_bounds(b@, p0);
        }
        while p < len && ascii_ws(b[p])
            invariant
                p0 <= p <= len,
                len == b@.len(),
                skip_ws(b@, p as int) == skip_ws(b@, p0),
            decreases len - p,
        {
            p = p + 1;
        }
        if p >= len {
            self.pos = len;
            return None;
        }
        let start = p;
        let mut e = p + 1;
        proof {
            lemma_word_end_bounds(b@, start as int);
        }
        while e < len && !ascii_ws(b[e])
            invariant
                start < e <= len,
                len == b@.len(),
                !is_ascii_ws(b@[start as int]),
                word_end(b@, e as int) == word_end(b@, start as int),
            decreases len - e,
        {
            e = e + 1;
        }
        proof {
            let bs = b@;
            lemma_str_valid(self.source);
            if start == 0 {
                is_char_boundary_start_end_of_seq(bs);
            } else {
                if start as int == p0 {
                } else {
                    lemma_skip_ws_bounds(bs, p0);
                }
                assert(is_ascii_ws(bs[start - 1]));
                lemma_ascii_boundary(bs, start - 1);
            }
            if e == len {
                is_char_boundary_start_end_of_seq(bs);
            } else {
                lemma_ascii_boundary(bs, e as int);
            }
        }
        proof {
            lemma_word_end_bounds(b@, start as int);
        }
        let value = str_slice(self.source, start, e);
        self.pos = if e < len {
            e + 1
        } else {
            len
        };
        Some(
            Word {
                value,
                location: SourceLocation {
                    file: self.file,
                    start: ByteIndex(start),
                    end: ByteIndex(e),
                },
            },
        )
    }
}

/// All words of `source`, in order.
pub fn split_words<'a>(file_id: FileId, source: &'a str) -> (r: Vec<Word<'a>>)
    ensures
        words_of(r@, file_id, source.spec_bytes()),
{
    let mut tokenizer = Tokenizer::new(file_id, source);
    let mut words: Vec<Word<'a>> = Vec::new();
    let ghost b = source.spec_bytes();
    loop
        invariant
            tokenizer.wf(),
            tokenizer.file() == file_id,
            tokenizer.bytes() == b,
            b == source.spec_bytes(),
            0 <= tokenizer.pos() <= b.len(),
            forall|i: int| 0 <= i < words@.len() ==> #[trigger] words@[i].location.end.0 <= tokenizer.pos(),
            forall|i: int, j: int|
                0 <= i < j < words@.len() ==> #[trigger] words@[i].location.end.0 <= #[trigger] words@[j].location.start.0,
            spans(b) == words@.map_values(|w: Word| (w.location.start.0 as int, w.location.end.0 as int))
                + spans_from(b, tokenizer.pos()),
            forall|i: int|
                0 <= i < words@.len() ==> word_at(
                    #[trigger] words@[i],
                    file_id,
                    b,
                    words@[i].location.start.0 as int,
                    words@[i].location.end.0 as int,
                ),
        ensures
            forall|i: int, j: int|
                0 <= i < j < words@.len() ==> #[trigger] words@[i].location.end.0 <= #[trigger] words@[j].location.start.0,
            spans(b) == words@.map_values(
                |w: Word| (w.location.start.0 as int, w.location.end.0 as int),
            ),
            forall|i: int|
                0 <= i < words@.len() ==> word_at(
                    #[trigger] words@[i],
                    file_id,
                    b,
                    words@[i].location.start.0 as int,
                    words@[i].location.end.0 as int,
                ),
        decreases b.len() - tokenizer.pos(),
    {
        let ghost p = tokenizer.pos();
        let ghost old_words = words@;
        proof {
            lemma_skip_ws_bounds(b, p);
        }
        match tokenizer.next() {
            None => {
                assert(spans_from(b, p) =~= Seq::<(int, int)>::empty());
                assert(spans(b) =~= words@.map_values(
                    |w: Word| (w.location.start.0 as int, w.location.end.0 as int),
                ));
                break;
            },
            Some(w) => {
                proof {
                    lemma_word_end_bounds(b, w.location.start.0 as int);
                }
                words.push(w);
                assert(words@.map_values(
                    |w: Word| (w.location.start.0 as int, w.location.end.0 as int),
                ) =~= old_words.map_values(
                    |w: Word| (w.location.start.0 as int, w.location.end.0 as int),
                ).push((w.location.start.0 as int, w.location.end.0 as int)));
            },
        }
    }
    proof {
        let m = words@.map_values(|w: Word| (w.location.start.0 as int, w.location.end.0 as int));
        assert forall|i: int| 0 <= i < words@.len() implies word_at(
            #[trigger] words@[i],
            file_id,
            b,
            spans(b)[i].0,
            spans(b)[i].1,
        ) by {
            assert(spans(b)[i] == m[i]);
        }
    }
    words
}

} // verus!

verus! {

/// The span lies within the bytes, holds no ASCII white space, and is bounded by white space
/// or the ends of the bytes.
pub open spec fn is_word_span(b: Seq<u8>, s: int, e: int) -> bool {
    &&& 0 <= s < e <= b.len()
    &&& forall|i: int| s <= i < e ==> !is_ascii_ws(#[trigger] b[i])
    &&& (s == 0 || is_ascii_ws(b[s - 1]))
    &&& (e == b.len() || is_ascii_ws(b[e]))
}

/// The words from `p` on are the runs of bytes between ASCII white space, as
/// `str::split_ascii_whitespace` gives them: each span is such a run, the spans come in order,
/// and every byte from `p` on that is not white space lies in one of them. Once the tokenizer
/// has reached the end of the bytes, there is no next word, so after the first `None` every
/// call gives `None` again.
pub proof fn law_words_split_on_whitespace(b: Seq<u8>, p: int)
    requires
        0 <= p <= b.len(),
        p == 0 || p == b.len() || is_ascii_ws(b[p - 1]),
    ensures
        ({
            let sp = spans_from(b, p);
            &&& forall|k: int| 0 <= k < sp.len() ==> p <= (#[trigger] sp[k]).0 && is_word_span(b, sp[k].0, sp[k].1)
            &&& forall|k: int, j: int| 0 <= k < j < sp.len() ==> (#[trigger] sp[k]).1 < (#[trigger] sp[j]).0
            &&& forall|i: int|
                p <= i < b.len() && !is_ascii_ws(#[trigger] b[i]) ==> exists|k: int|
                    0 <= k < sp.len() && (#[trigger] sp[k]).0 <= i < sp[k].1
        }),
        next_span(b, b.len() as int) is None,
    decreases b.len() - p,
{
    lemma_skip_ws_bounds(b, b.len() as int);
    if p < b.len() {
        lemma_skip_ws_bounds(b, p);
        match next_span(b, p) {
            None => {
                assert forall|i: int| p <= i < b.len() implies is_ascii_ws(#[trigger] b[i]) by {}
            },
            Some(span) => {
                let (s, e) = span;
                lemma_word_end_bounds(b, s);
                let q = after_span(b, e);
                law_words_split_on_whitespace(b, q);
                let rest = spans_from(b, q);
                let sp = spans_from(b, p);
                assert(sp == seq![span] + rest);
                assert(is_word_span(b, s, e)) by {
                    if s > p {
                        assert(is_ascii_ws(b[s - 1]));
                    }
                }
                assert forall|k: int| 0 <= k < sp.len() implies p <= (#[trigger] sp[k]).0 && is_word_span(b, sp[k].0, sp[k].1) by {
                    if k > 0 {
                        assert(sp[k] == rest[k - 1]);
                    }
                }
                assert forall|k: int, j: int| 0 <= k < j < sp.len() implies (#[trigger] sp[k]).1 < (#[trigger] sp[j]).0 by {
                    assert(sp[j] == rest[j - 1]);
                    if k > 0 {
                        assert(sp[k] == rest[k - 1]);
                    } else {
                        assert(q <= rest[j - 1].0);
                    }
                }
                assert forall|i: int| p <= i < b.len() && !is_ascii_ws(#[trigger] b[i]) implies exists|k: int|
                    0 <= k < sp.len() && (#[trigger] sp[k]).0 <= i < sp[k].1 by {
                    if i < s {
                    } else if i < e {
                        assert(sp[0] == span);
                    } else {
                        assert(i >= q);
                        let k = choose|k: int| 0 <= k < rest.len() && (#[trigger] rest[k]).0 <= i < rest[k].1;
                        assert(sp[k + 1] == rest[k]);
                    }
                }
            },
        }
    }
}

} // verus!

verus! {

/// What `k` successive calls of [`Tokenizer::next`] give when scanning resumes at `p`, each
/// call as its contract states it: the span of the word it returns, or `None`.
pub open spec fn tokenizer_calls(b: Seq<u8>, p: int, k: nat) -> Seq<Option<(int, int)>>
    decreases k,
{
    if k == 0 {
        Seq::empty()
    } else {
        match next_span(b, p) {
            None => seq![None] + tokenizer_calls(b, b.len() as int, (k - 1) as nat),
            Some(span) => seq![Some(span)] + tokenizer_calls(b, after_span(b, span.1), (k - 1) as nat),
        }
    }
}

/// Successive calls of [`Tokenizer::next`] give the words from `p` on, in order, and then
/// `None` on every further call: the `i`th call gives the `i`th span of [`spans_from`], and
/// once those are used up, nothing. Each word returned slices its own range of the source, as
/// the contract of `next` states, and [`law_words_split_on_whitespace`] says what the spans are.
pub proof fn law_tokenizer_calls(b: Seq<u8>, p: int, k: nat)
    requires
        0 <= p <= b.len(),
        p == 0 || p == b.len() || is_ascii_ws(b[p - 1]),
    ensures
        tokenizer_calls(b, p, k).len() == k,
        forall|i: int|
            0 <= i < k ==> #[trigger] tokenizer_calls(b, p, k)[i] == (if i < spans_from(b, p).len() {
                Some(spans_from(b, p)[i])
            } else {
                None
            }),
    decreases k,
{
    if k > 0 {
        let calls = tokenizer_calls(b, p, k);
        lemma_skip_ws_bounds(b, p);
        match next_span(b, p) {
            None => {
                lemma_skip_ws_bounds(b, b.len() as int);
                law_tokenizer_calls(b, b.len() as int, (k - 1) as nat);
                let rest = tokenizer_calls(b, b.len() as int, (k - 1) as nat);
                assert(spans_from(b, p) =~= Seq::<(int, int)>::empty());
                assert(spans_from(b, b.len() as int) =~= Seq::<(int, int)>::empty());
                assert forall|i: int| 0 <= i < k implies #[trigger] calls[i] == (if i < spans_from(
                    b,
                    p,
                ).len() {
                    Some(spans_from(b, p)[i])
                } else {
                    None
                }) by {
                    if i > 0 {
                        assert(calls[i] == rest[i - 1]);
                    }
                }
            },
            Some(span) => {
                lemma_word_end_bounds(b, span.0);
                let q = after_span(b, span.1);
                law_tokenizer_calls(b, q, (k - 1) as nat);
                let rest = tokenizer_calls(b, q, (k - 1) as nat);
                let sp = spans_from(b, p);
                assert(sp == seq![span] + spans_from(b, q));
                assert forall|i: int| 0 <= i < k implies #[trigger] calls[i] == (if i < sp.len() {
                    Some(sp[i])
                } else {
                    None
                }) by {
                    if i > 0 {
                        assert(calls[i] == rest[i - 1]);
                        if i < sp.len() {
                            assert(sp[i] == spans_from(b, q)[i - 1]);
                        }
                    }
                }
            },
        }
    }
}

} // verus!
