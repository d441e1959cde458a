//! A code formatter for random map scripts.
//!
//! The formatter is described by the spec functions of this module, which follow the shape of
//! the script: a command block is formatted as a unit, and so are `if` and `start_random`
//! statements. Counters that the formatter keeps (indentation, column widths) saturate at the
//! largest value of their type instead of overflowing.

use crate::diagnostic::SourceLocation;
use crate::parser::{text, Atom, AtomKind};
use crate::text::{is_ws_char, lead_ws, str_chars, sub_chars, trim_char_vec, trim_chars, ws_char};
use crate::wordize::Word;
use vstd::prelude::*;
use vstd::string::*;
use vstd::utf8::*;

verus! {

broadcast use vstd::seq::group_seq_axioms;

/// Formatting options.
///
/// The defaults indent by 2 spaces and align arguments.
#[derive(Debug, Clone, Copy)]
pub struct FormatOptions {
    tab_size: u32,
    use_spaces: bool,
    align_arguments: bool,
}

impl FormatOptions {
    /// The size in spaces of one indentation level.
    pub closed spec fn spec_tab_size(&self) -> u32 {
        self.tab_size
    }

    /// Whether indentation uses spaces rather than tabs.
    pub closed spec fn spec_use_spaces(&self) -> bool {
        self.use_spaces
    }

    /// Whether the arguments of commands in a block are aligned.
    pub closed spec fn spec_align_arguments(&self) -> bool {
        self.align_arguments
    }

    /// Set the size in spaces of a single tab indentation (default 2). This is only used if
    /// `use_spaces()` is enabled: with tabs, one level of indentation counts as one character
    /// when arguments are aligned.
    pub fn tab_size(self, tab_size: u32) -> (r: Self)
        ensures
            r.spec_tab_size() == tab_size,
            r.spec_use_spaces() == self.spec_use_spaces(),
            r.spec_align_arguments() == self.spec_align_arguments(),
    {
        FormatOptions { tab_size, ..self }
    }

    /// Whether to use spaces instead of tabs for indentation (default true).
    pub fn use_spaces(self, use_spaces: bool) -> (r: Self)
        ensures
            r.spec_tab_size() == self.spec_tab_size(),
            r.spec_use_spaces() == use_spaces,
            r.spec_align_arguments() == self.spec_align_arguments(),
    {
        FormatOptions { use_spaces, ..self }
    }

    /// Whether to align arguments in a list of commands (default true).
    pub fn align_arguments(self, align_arguments: bool) -> (r: Self)
        ensures
            r.spec_tab_size() == self.spec_tab_size(),
            r.spec_use_spaces() == self.spec_use_spaces(),
            r.spec_align_arguments() == align_arguments,
    {
        FormatOptions { align_arguments, ..self }
    }
}

impl Default for FormatOptions {
    fn default() -> (r: Self)
        ensures
            r.spec_tab_size() == 2,
            r.spec_use_spaces(),
            r.spec_align_arguments(),
    {
        FormatOptions { tab_size: 2, use_spaces: true, align_arguments: true }
    }
}

/// What the formatter remembers of the last atom it wrote.
#[derive(Clone, Copy, PartialEq, Eq, Structural)]
pub enum PrevKind {
    CloseBlock,
    Other,
    /// Any other kind of atom.
    Plain,
}

/// The remembered kind of an atom.
pub open spec fn prev_kind(atom: Atom) -> PrevKind {
    match atom.kind {
        AtomKind::CloseBlock { .. } => PrevKind::CloseBlock,
        AtomKind::Other { .. } => PrevKind::Other,
        _ => PrevKind::Plain,
    }
}

/// The state of the formatter.
pub struct FmtState {
    /// The formatted text so far.
    pub result: Seq<char>,
    /// The current indentation level.
    pub indent: u32,
    /// Whether the current line has no text yet and still needs indentation.
    pub needs_indent: bool,
    /// The command and first-argument widths of the enclosing blocks, innermost last.
    pub widths: Seq<(usize, usize)>,
    /// How many command blocks are open.
    pub inside_block: usize,
    /// The kind and location of the last atom written.
    pub prev: Option<(PrevKind, SourceLocation)>,
}

/// A state that has written nothing.
pub open spec fn initial_state() -> FmtState {
    FmtState {
        result: Seq::empty(),
        indent: 0,
        needs_indent: false,
        widths: Seq::empty(),
        inside_block: 0,
        prev: None,
    }
}

/// `n` copies of a character.
pub open spec fn repeat(c: char, n: int) -> Seq<char> {
    Seq::new(n as nat, |_i: int| c)
}

/// The indentation of a line at level `indent`.
pub open spec fn indentation(o: FormatOptions, indent: u32) -> Seq<char> {
    if o.spec_use_spaces() {
        repeat(' ', indent * o.spec_tab_size())
    } else {
        repeat('\t', indent as int)
    }
}

/// The width that one level of indentation takes: the tab size with spaces, one character with
/// tabs.
pub open spec fn level_width(o: FormatOptions) -> u32 {
    if o.spec_use_spaces() {
        o.spec_tab_size()
    } else {
        1
    }
}

/// Text appended as it is.
pub open spec fn st_push(st: FmtState, t: Seq<char>) -> FmtState {
    FmtState { result: st.result + t, ..st }
}

/// A Windows-style line break.
pub open spec fn st_newline(st: FmtState) -> FmtState {
    FmtState { result: st.result + seq!['\r', '\n'], needs_indent: true, ..st }
}

/// The current line indented, if it still needs it.
pub open spec fn st_indent(o: FormatOptions, st: FmtState) -> FmtState {
    if st.needs_indent {
        FmtState { result: st.result + indentation(o, st.indent), needs_indent: false, ..st }
    } else {
        st
    }
}

/// Text written to the current line, which is indented first if it needs it.
pub open spec fn st_text(o: FormatOptions, st: FmtState, t: Seq<char>) -> FmtState {
    st_push(st_indent(o, st), t)
}

/// The indentation level changed by one.
pub open spec fn st_indent_more(st: FmtState) -> FmtState {
    FmtState { indent: st.indent.saturating_add(1), ..st }
}

/// The indentation level changed by one.
pub open spec fn st_indent_less(st: FmtState) -> FmtState {
    FmtState { indent: st.indent.saturating_sub(1), ..st }
}

/// The innermost widths, or zero widths.
pub open spec fn last_width(st: FmtState) -> (usize, usize) {
    if st.widths.len() > 0 {
        st.widths.last()
    } else {
        (0, 0)
    }
}

/// The length in bytes of a word.
pub open spec fn blen(w: Word) -> usize {
    text(w).len() as usize
}

/// The product, or the largest `usize` where it does not fit.
pub open spec fn sat_mul(a: usize, b: usize) -> usize {
    if a * b > usize::MAX {
        usize::MAX
    } else {
        (a * b) as usize
    }
}

/// The larger of two numbers.
pub open spec fn max_usize(a: usize, b: usize) -> usize {
    if a >= b {
        a
    } else {
        b
    }
}

/// Multiplies, saturating at the largest `usize`.
fn saturating_mul(a: usize, b: usize) -> (r: usize)
    ensures
        r == sat_mul(a, b),
{
    match a.checked_mul(b) {
        Some(x) => x,
        None => usize::MAX,
    }
}

/// Appends characters to a vector.
fn push_chars_to(v: &mut Vec<char>, t: &[char])
    ensures
        final(v)@ == old(v)@ + t@,
{
    let ghost before = v@;
    let mut i: usize = 0;
    while i < t.len()
        invariant
            i <= t@.len(),
            v@ == before + t@.take(i as int),
        decreases t@.len() - i,
    {
        v.push(t[i]);
        i = i + 1;
        assert(v@ =~= before + t@.take(i as int));
    }
    assert(t@.take(t@.len() as int) =~= t@);
}

/// Appends `n` copies of a character to a vector.
fn push_repeat_to(v: &mut Vec<char>, c: char, n: u64)
    ensures
        final(v)@ == old(v)@ + repeat(c, n as int),
{
    let ghost before = v@;
    let mut i: u64 = 0;
    while i < n
        invariant
            i <= n,
            v@ == before + repeat(c, i as int),
        decreases n - i,
    {
        v.push(c);
        i = i + 1;
        assert(v@ =~= before + repeat(c, i as int));
    }
}

/// The formatter: its options and source, and the state of its output.
struct Formatter<'f> {
    options: FormatOptions,
    source: &'f str,
    indent: u32,
    needs_indent: bool,
    widths: Vec<(usize, usize)>,
    inside_block: usize,
    result: Vec<char>,
    prev: Option<(PrevKind, SourceLocation)>,
}

impl<'f> View for Formatter<'f> {
    type V = FmtState;

    closed spec fn view(&self) -> FmtState {
        FmtState {
            result: self.result@,
            indent: self.indent,
            needs_indent: self.needs_indent,
            widths: self.widths@,
            inside_block: self.inside_block,
            prev: self.prev,
        }
    }
}

impl<'f> Formatter<'f> {
    closed spec fn spec_options(&self) -> FormatOptions {
        self.options
    }

    closed spec fn spec_source(&self) -> Seq<u8> {
        self.source.spec_bytes()
    }

    fn new(options: FormatOptions, source: &'f str) -> (r: Self)
        ensures
            r@ == initial_state(),
            r.spec_options() == options,
            r.spec_source() == source.spec_bytes(),
    {
        let r = Formatter {
            options,
            source,
            indent: 0,
            needs_indent: false,
            widths: Vec::new(),
            inside_block: 0,
            result: Vec::new(),
            prev: None,
        };
        assert(r@ == initial_state());
        r
    }

    /// Appends characters as they are.
    fn push_chars(&mut self, t: &[char])
        ensures
            final(self)@ == st_push(old(self)@, t@),
            final(self).spec_options() == old(self).spec_options(),
            final(self).spec_source() == old(self).spec_source(),
    {
        push_chars_to(&mut self.result, t);
    }

    /// Appends `n` copies of a character.
    fn push_repeat(&mut self, c: char, n: u64)
        ensures
            final(self)@ == st_push(old(self)@, repeat(c, n as int)),
            final(self).spec_options() == old(self).spec_options(),
            final(self).spec_source() == old(self).spec_source(),
    {
        push_repeat_to(&mut self.result, c, n);
    }

    /// Appends a space.
    fn push_space(&mut self)
        ensures
            final(self)@ == st_push(old(self)@, seq![' ']),
            final(self).spec_options() == old(self).spec_options(),
            final(self).spec_source() == old(self).spec_source(),
    {
        let ghost before = self.result@;
        self.result.push(' ');
        assert(self.result@ =~= before + seq![' ']);
    }

    /// Appends a string slice as it is.
    fn push_str(&mut self, t: &str)
        ensures
            final(self)@ == st_push(old(self)@, t@),
            final(self).spec_options() == old(self).spec_options(),
            final(self).spec_source() == old(self).spec_source(),
    {
        let v = str_chars(t);
        self.push_chars(v.as_slice());
    }

    /// Write a newline (Windows-style).
    fn newline(&mut self)
        ensures
            final(self)@ == st_newline(old(self)@),
            final(self).spec_options() == old(self).spec_options(),
            final(self).spec_source() == old(self).spec_source(),
    {
        let ghost before = self.result@;
        self.result.push('\r');
        self.result.push('\n');
        self.needs_indent = true;
        assert(self.result@ =~= before + seq!['\r', '\n']);
    }

    /// Indent the current line if it still needs it.
    fn maybe_indent(&mut self)
        ensures
            final(self)@ == st_indent(old(self).spec_options(), old(self)@),
            final(self).spec_options() == old(self).spec_options(),
            final(self).spec_source() == old(self).spec_source(),
    {
        if self.needs_indent {
            if self.options.use_spaces {
                let a = self.indent as u64;
                let b = self.options.tab_size as u64;
                assert(a * b <= 0xFFFF_FFFE_0000_0001) by (nonlinear_arith)
                    requires
                        a <= 0xFFFF_FFFF,
                        b <= 0xFFFF_FFFF,
                ;
                let n: u64 = a * b;
                self.push_repeat(' ', n);
            } else {
                self.push_repeat('\t', self.indent as u64);
            }
            self.needs_indent = false;
        }
    }
}

/// The remaining arguments from `i` on, each after a space.
pub open spec fn rest_args(o: FormatOptions, st: FmtState, args: Seq<Word>, i: int) -> FmtState
    decreases args.len() - i,
{
    if i < 0 || i >= args.len() {
        st
    } else {
        rest_args(o, st_text(o, st_push(st, seq![' ']), args[i].value@), args, i + 1)
    }
}

/// A command with its arguments. With aligned arguments, the first argument starts in the
/// column after the widest command of the block, and the second after the widest first
/// argument. A command that opens a block is followed by a space, any other by a line break.
pub open spec fn st_command(
    o: FormatOptions,
    st: FmtState,
    name: Word,
    args: Seq<Word>,
    is_block: bool,
) -> FmtState {
    let s1 = st_text(o, st, name.value@);
    let (cw, aw) = last_width(s1);
    let s2 = if o.spec_align_arguments() && args.len() > 0 {
        let a = st_push(s1, repeat(' ', cw.saturating_sub(blen(name)) as int));
        let b = st_text(o, st_push(a, seq![' ']), args[0].value@);
        if args.len() > 1 {
            st_push(b, repeat(' ', aw.saturating_sub(blen(args[0])) as int))
        } else {
            b
        }
    } else {
        s1
    };
    let s3 = rest_args(
        o,
        s2,
        args,
        if o.spec_align_arguments() && args.len() > 0 {
            1
        } else {
            0
        },
    );
    if is_block {
        st_push(s3, seq![' '])
    } else {
        st_newline(s3)
    }
}

/// A section header, on a line of its own after an empty line.
pub open spec fn st_section(o: FormatOptions, st: FmtState, name: Word) -> FmtState {
    let s = if st.prev is Some {
        st_newline(st)
    } else {
        st
    };
    st_newline(st_text(o, s, name.value@))
}

/// A `#define` statement.
pub open spec fn st_define(o: FormatOptions, st: FmtState, name: Word) -> FmtState {
    st_newline(st_text(o, st_text(o, st, "#define "@), name.value@))
}

/// A `#const` statement.
pub open spec fn st_const(o: FormatOptions, st: FmtState, name: Word, value: Option<Word>) -> FmtState {
    let s = st_text(o, st_text(o, st_text(o, st, "#const "@), name.value@), " "@);
    st_newline(
        match value {
            Some(v) => st_text(o, s, v.value@),
            None => s,
        },
    )
}

/// An `#undefine` statement.
pub open spec fn st_undefine(o: FormatOptions, st: FmtState, name: Word) -> FmtState {
    st_newline(st_text(o, st_text(o, st, "#undefine "@), name.value@))
}

/// Does the text hold an ASCII lower-case letter?
pub open spec fn has_ascii_lower(t: Seq<u8>) -> bool {
    exists|i: int| 0 <= i < t.len() && 0x61 <= #[trigger] t[i] && t[i] <= 0x7a
}

/// An unrecognised word. Words that start with `//` are written as they are; words that look
/// like arguments (upper case or numbers) go on the line of the unrecognised word before them.
pub open spec fn st_other(o: FormatOptions, st: FmtState, v: Word) -> FmtState {
    let t = text(v);
    if t.len() >= 2 && t[0] == 0x2f && t[1] == 0x2f {
        st_text(o, st, v.value@)
    } else {
        let arg_like = !has_ascii_lower(t) || crate::text::all_digits(t);
        if arg_like && st.prev matches Some((PrevKind::Other, _)) {
            st_text(o, st_push(st, seq![' ']), v.value@)
        } else {
            st_text(o, st, v.value@)
        }
    }
}

impl<'f> Formatter<'f> {
    /// Write some text to the current line.
    fn text(&mut self, t: &str)
        ensures
            final(self)@ == st_text(old(self).spec_options(), old(self)@, t@),
            final(self).spec_options() == old(self).spec_options(),
            final(self).spec_source() == old(self).spec_source(),
    {
        self.maybe_indent();
        self.push_str(t);
    }

    /// Write some characters to the current line.
    fn text_chars(&mut self, t: &[char])
        ensures
            final(self)@ == st_text(old(self).spec_options(), old(self)@, t@),
            final(self).spec_options() == old(self).spec_options(),
            final(self).spec_source() == old(self).spec_source(),
    {
        self.maybe_indent();
        self.push_chars(t);
    }

    /// The innermost widths, or zero widths.
    fn last_width(&self) -> (r: (usize, usize))
        ensures
            r == last_width(self@),
    {
        if self.widths.len() > 0 {
            self.widths[self.widths.len() - 1]
        } else {
            (0, 0)
        }
    }

    /// Write a command.
    fn command(&mut self, name: &Word, arguments: &[Word], is_block: bool)
        ensures
            final(self)@ == st_command(old(self).spec_options(), old(self)@, *name, arguments@, is_block),
            final(self).spec_options() == old(self).spec_options(),
            final(self).spec_source() == old(self).spec_source(),
    {
        let ghost o = self.options;
        self.text(name.value);
        let (command_width, arg_width) = self.last_width();
        let mut start: usize = 0;
        if self.options.align_arguments && arguments.len() > 0 {
            // Pad between the command name and the first argument, and between the first and
            // the second argument. The rest is not lined up.
            self.push_repeat(' ', command_width.saturating_sub(name.value.len()) as u64);
            self.push_space();
            self.text(arguments[0].value);
            if arguments.len() > 1 {
                self.push_repeat(' ', arg_width.saturating_sub(arguments[0].value.len()) as u64);
            }
            start = 1;
        }
        let ghost mid = self@;
        let mut i: usize = start;
        while i < arguments.len()
            invariant
                start <= i <= arguments@.len(),
                self.spec_options() == o,
                self.spec_source() == old(self).spec_source(),
                rest_args(o, mid, arguments@, start as int) == rest_args(o, self@, arguments@, i as int),
            decreases arguments@.len() - i,
        {
            self.push_space();
            self.text(arguments[i].value);
            i = i + 1;
        }
        if is_block {
            self.push_space();
        } else {
            self.newline();
        }
    }

    /// Write a section header.
    fn section(&mut self, name: &Word)
        ensures
            final(self)@ == st_section(old(self).spec_options(), old(self)@, *name),
            final(self).spec_options() == old(self).spec_options(),
            final(self).spec_source() == old(self).spec_source(),
    {
        if self.prev.is_some() {
            self.newline();
        }
        self.text(name.value);
        self.newline();
    }

    /// Write a #define statement.
    fn define(&mut self, name: &Word)
        ensures
            final(self)@ == st_define(old(self).spec_options(), old(self)@, *name),
            final(self).spec_options() == old(self).spec_options(),
            final(self).spec_source() == old(self).spec_source(),
    {
        self.text("#define ");
        self.text(name.value);
        self.newline();
    }

    /// Write a #const statement.
    fn const_(&mut self, name: &Word, value: &Option<Word>)
        ensures
            final(self)@ == st_const(old(self).spec_options(), old(self)@, *name, *value),
            final(self).spec_options() == old(self).spec_options(),
            final(self).spec_source() == old(self).spec_source(),
    {
        self.text("#const ");
        self.text(name.value);
        self.text(" ");
        if let Some(value) = value {
            self.text(value.value);
        }
        self.newline();
    }

    /// Write an #undefine statement.
    fn undefine(&mut self, name: &Word)
        ensures
            final(self)@ == st_undefine(old(self).spec_options(), old(self)@, *name),
            final(self).spec_options() == old(self).spec_options(),
            final(self).spec_source() == old(self).spec_source(),
    {
        self.text("#undefine ");
        self.text(name.value);
        self.newline();
    }

    /// Write an unrecognised word.
    fn other(&mut self, value: &Word)
        ensures
            final(self)@ == st_other(old(self).spec_options(), old(self)@, *value),
            final(self).spec_options() == old(self).spec_options(),
            final(self).spec_source() == old(self).spec_source(),
    {
        let t = value.value.as_bytes();
        // sometimes people use `//` comments even though that doesn't work; pass those through
        if t.len() >= 2 && t[0] == 0x2f && t[1] == 0x2f {
            self.text(value.value);
            return;
        }
        let mut lower = false;
        let mut digits = true;
        let mut i: usize = 0;
        while i < t.len()
            invariant
                i <= t@.len(),
                t@ == text(*value),
                lower == exists|j: int| 0 <= j < i && 0x61 <= #[trigger] t@[j] && t@[j] <= 0x7a,
                digits == forall|j: int| 0 <= j < i ==> crate::text::is_digit(#[trigger] t@[j]),
            decreases t@.len() - i,
        {
            if 0x61 <= t[i] && t[i] <= 0x7a {
                lower = true;
            }
            if !(0x30 <= t[i] && t[i] <= 0x39) {
                digits = false;
            }
            i = i + 1;
        }
        let arg_like = !lower || digits;
        let prev_is_other = match self.prev {
            Some((PrevKind::Other, _)) => true,
            _ => false,
        };
        if arg_like && prev_is_other {
            self.push_space();
        }
        self.text(value.value);
    }
}

/// The first line feed at or after `i`.
pub open spec fn find_nl(s: Seq<char>, i: int) -> Option<int>
    decreases s.len() - i,
{
    if i < 0 || i >= s.len() {
        None
    } else if s[i] == '\n' {
        Some(i)
    } else {
        find_nl(s, i + 1)
    }
}

/// Where the first line feed at or after `i` stands, if there is one.
pub proof fn lemma_find_nl(s: Seq<char>, i: int)
    requires
        0 <= i,
    ensures
        match find_nl(s, i) {
            Some(j) => i <= j < s.len() && s[j] == '\n' && forall|k: int| i <= k < j ==> s[k] != '\n',
            None => forall|k: int| i <= k < s.len() ==> s[k] != '\n',
        },
    decreases s.len() - i,
{
    if i < s.len() && s[i] != '\n' {
        lemma_find_nl(s, i + 1);
    }
}

/// A line without the carriage return that ended it.
pub open spec fn strip_cr(l: Seq<char>) -> Seq<char> {
    if l.len() > 0 && l.last() == '\r' {
        l.drop_last()
    } else {
        l
    }
}

/// The lines from `i` on, as `str::lines` splits them: at each `\n` or `\r\n`, with no
/// empty line after a final line break.
pub open spec fn lines_from(s: Seq<char>, i: int) -> Seq<Seq<char>>
    decreases s.len() - i,
{
    if i < 0 || i >= s.len() {
        Seq::empty()
    } else {
        match find_nl(s, i) {
            Some(j) => {
                proof {
                    lemma_find_nl(s, i);
                }
                seq![strip_cr(s.subrange(i, j))] + lines_from(s, j + 1)
            },
            None => seq![s.subrange(i, s.len() as int)],
        }
    }
}

/// The lines of a text, as `str::lines` gives them.
pub open spec fn lines_of(s: Seq<char>) -> Seq<Seq<char>> {
    lines_from(s, 0)
}

/// How many of the first `n` lines are blank.
pub open spec fn blank_count(ls: Seq<Seq<char>>, n: int) -> int
    decreases n,
{
    if n <= 0 {
        0
    } else {
        blank_count(ls, n - 1) + if trim_chars(ls[n - 1]).len() == 0 {
            1int
        } else {
            0int
        }
    }
}

/// The source text between the byte offsets `a` and `b`, if they are character boundaries in
/// order.
pub open spec fn between(src: Seq<u8>, a: int, b: int) -> Option<Seq<char>> {
    if 0 <= a <= b <= src.len() && is_char_boundary(src, a) && is_char_boundary(src, b) {
        Some(decode_utf8(src.subrange(a, b)))
    } else {
        None
    }
}

/// Is there a padding line between two atoms: a line break, a blank line, and a line break?
pub open spec fn has_padding(src: Seq<u8>, a: int, b: int) -> bool {
    match between(src, a, b) {
        Some(t) => {
            let n = blank_count(lines_of(t), lines_of(t).len() as int);
            if t.len() > 0 && t.last() == '\n' {
                n >= 2
            } else {
                n >= 3
            }
        },
        None => false,
    }
}

/// Should the atom, a comment, stay at the end of the line of the atom before it: is there no
/// line break between them?
pub open spec fn comment_on_same_line(src: Seq<u8>, a: int, b: int, atom: Atom) -> bool {
    atom.kind is Comment && match between(src, a, b) {
        Some(t) => !t.contains('\n'),
        None => false,
    }
}

/// The body of a continuation line of a comment: a line that already starts with `* ` loses its
/// indentation.
pub open spec fn comment_line_body(l: Seq<char>) -> Seq<char> {
    let t = trim_chars(l);
    if t.len() >= 2 && t[0] == '*' && t[1] == ' ' {
        l.subrange(lead_ws(l, 0), l.len() as int)
    } else {
        l
    }
}

/// The continuation lines of a comment from `i` on, each on a line of its own after ` * `.
pub open spec fn comment_rest(o: FormatOptions, st: FmtState, ls: Seq<Seq<char>>, i: int) -> FmtState
    decreases ls.len() - i,
{
    if i < 1 || i >= ls.len() {
        st
    } else {
        comment_rest(
            o,
            st_text(o, st_text(o, st_newline(st), " * "@), comment_line_body(ls[i])),
            ls,
            i + 1,
        )
    }
}

/// A comment, Java-style: `/* ` and the first line; then each further line after ` * `, and
/// ` */` on a line of its own when there were several lines.
pub open spec fn st_comment(o: FormatOptions, st: FmtState, content: Seq<char>) -> FmtState {
    let ls = lines_of(content);
    let s = st_text(o, st, "/* "@);
    let s = if ls.len() > 0 {
        st_text(o, s, trim_chars(ls[0]))
    } else {
        s
    };
    let s = comment_rest(o, s, ls, 1);
    let s = if ls.len() > 1 {
        st_newline(s)
    } else {
        s
    };
    st_newline(st_text(o, s, " */"@))
}

/// The result without a final `\r\n`, if it ends with one.
pub open spec fn drop_crlf(st: FmtState) -> FmtState {
    let r = st.result;
    if r.len() >= 2 && r[r.len() - 2] == '\r' && r[r.len() - 1] == '\n' {
        FmtState { result: r.drop_last().drop_last(), ..st }
    } else {
        st
    }
}

/// The white space before an atom: a line break after a `}` and after a run of unrecognised
/// words; a padding line where the source has one; and a comment stays on the line before
/// it when the source has it there.
pub open spec fn fmt_pre(o: FormatOptions, src: Seq<u8>, st: FmtState, atom: Atom) -> FmtState {
    let s0 = match st.prev {
        Some((PrevKind::CloseBlock, _)) => st_newline(st),
        Some((PrevKind::Other, _)) => if atom.kind is Other {
            st
        } else {
            st_newline(st)
        },
        _ => st,
    };
    match st.prev {
        Some((_, ploc)) => {
            let a = ploc.end.0 as int;
            let b = atom.location.start.0 as int;
            if has_padding(src, a, b) {
                st_newline(s0)
            } else if comment_on_same_line(src, a, b, atom) {
                st_text(o, drop_crlf(s0), " "@)
            } else {
                s0
            }
        },
        None => s0,
    }
}

/// An atom that opens nothing: all but `{`, `if` and `start_random`.
pub open spec fn st_simple(o: FormatOptions, st: FmtState, atom: Atom, input: Seq<Atom>, pos: int) -> FmtState {
    match atom.kind {
        AtomKind::Section { name } => st_section(o, st, name),
        AtomKind::Define { name, .. } => st_define(o, st, name),
        AtomKind::Const { name, value, .. } => st_const(o, st, name, value),
        AtomKind::Undefine { name, .. } => st_undefine(o, st, name),
        AtomKind::Command { name, arguments } => st_command(
            o,
            st,
            name,
            arguments@,
            0 <= pos < input.len() && input[pos].kind is OpenBlock,
        ),
        AtomKind::Comment { content, .. } => st_comment(o, st, content@),
        AtomKind::Other { value } => st_other(o, st, value),
        AtomKind::ElseIf { condition, .. } => st_newline(
            st_text(o, st_text(o, st, "elseif "@), condition.value@),
        ),
        AtomKind::Else { .. } => st_newline(st_text(o, st, "else"@)),
        AtomKind::EndIf { .. } => st_newline(st_text(o, st, "endif"@)),
        AtomKind::CloseBlock { .. } => st_newline(st_text(o, st, "}"@)),
        AtomKind::PercentChance { chance, .. } => st_newline(
            st_text(o, st_text(o, st, "percent_chance "@), chance.value@),
        ),
        AtomKind::EndRandom { .. } => st_newline(st_text(o, st, "end_random"@)),
        _ => st,
    }
}

/// An atom that opens nothing, with the white space before it; it becomes the last atom.
pub open spec fn fmt_plain(o: FormatOptions, src: Seq<u8>, st: FmtState, atom: Atom, input: Seq<Atom>, pos: int) -> FmtState {
    FmtState {
        prev: Some((prev_kind(atom), atom.location)),
        ..st_simple(o, fmt_pre(o, src, st, atom), atom, input, pos)
    }
}

/// The first `}` at or after `i`, or the end.
pub open spec fn find_close_block(input: Seq<Atom>, i: int) -> int
    decreases input.len() - i,
{
    if i < 0 || i >= input.len() {
        input.len() as int
    } else if input[i].kind is CloseBlock {
        i
    } else {
        find_close_block(input, i + 1)
    }
}

/// The `}` found lies between `i` and the end.
pub proof fn lemma_find_close_block(input: Seq<Atom>, i: int)
    requires
        0 <= i <= input.len(),
    ensures
        i <= find_close_block(input, i) <= input.len(),
        find_close_block(input, i) < input.len() ==> input[find_close_block(input, i)].kind is CloseBlock,
    decreases input.len() - i,
{
    if i < input.len() && !(input[i].kind is CloseBlock) {
        lemma_find_close_block(input, i + 1);
    }
}

/// The `endif` that closes an `if` at depth `depth`, from `i` on, or the end.
pub open spec fn find_endif(input: Seq<Atom>, i: int, depth: int) -> int
    decreases input.len() - i,
{
    if i < 0 || i >= input.len() {
        input.len() as int
    } else {
        match input[i].kind {
            AtomKind::If { .. } => find_endif(input, i + 1, depth + 1),
            AtomKind::EndIf { .. } => if depth - 1 == 0 {
                i
            } else {
                find_endif(input, i + 1, depth - 1)
            },
            _ => find_endif(input, i + 1, depth),
        }
    }
}

/// The `endif` found lies between `i` and the end.
pub proof fn lemma_find_endif(input: Seq<Atom>, i: int, depth: int)
    requires
        0 <= i <= input.len(),
    ensures
        i <= find_endif(input, i, depth) <= input.len(),
    decreases input.len() - i,
{
    if i < input.len() {
        match input[i].kind {
            AtomKind::If { .. } => lemma_find_endif(input, i + 1, depth + 1),
            AtomKind::EndIf { .. } => if depth - 1 != 0 {
                lemma_find_endif(input, i + 1, depth - 1)
            },
            _ => lemma_find_endif(input, i + 1, depth),
        }
    }
}

/// The widths of the commands among the first `n` atoms of a block, and the number of `if`
/// statements open after them. The width of a command counts the indentation of the `if`
/// statements it is in, each level as wide as [`level_width`].
pub open spec fn block_width(o: FormatOptions, sub: Seq<Atom>, n: int) -> ((usize, usize), usize)
    decreases n,
{
    if n <= 0 {
        ((0, 0), 0)
    } else {
        let (w, ind) = block_width(o, sub, n - 1);
        match sub[n - 1].kind {
            AtomKind::Command { name, arguments } => (
                (
                    max_usize(w.0, blen(name).saturating_add(sat_mul(ind, level_width(o) as usize))),
                    max_usize(
                        w.1,
                        if arguments@.len() > 0 {
                            blen(arguments@[0])
                        } else {
                            0
                        },
                    ),
                ),
                ind,
            ),
            AtomKind::If { .. } => (w, ind.saturating_add(1)),
            AtomKind::EndIf { .. } => (w, ind.saturating_sub(1)),
            _ => (w, ind),
        }
    }
}

/// The widths without the innermost.
pub open spec fn pop_width(st: FmtState) -> FmtState {
    FmtState {
        widths: if st.widths.len() > 0 {
            st.widths.drop_last()
        } else {
            st.widths
        },
        ..st
    }
}

/// The widths with a new innermost.
pub open spec fn push_width(st: FmtState, w: (usize, usize)) -> FmtState {
    FmtState { widths: st.widths.push(w), ..st }
}

/// Reads a `start_random` statement from `i` on: the position after its `end_random` (or the
/// end), and its branches, each a `percent_chance` word and the atoms from `start` to `end`.
/// Atoms before the first `percent_chance` are dropped.
pub open spec fn random_scan<'a>(
    input: Seq<Atom<'a>>,
    i: int,
    depth: int,
    branches: Seq<(Word<'a>, int, int)>,
) -> (int, Seq<(Word<'a>, int, int)>)
    decreases input.len() - i,
{
    if i < 0 || i >= input.len() {
        (input.len() as int, branches)
    } else {
        let a = input[i];
        if depth == 1 && a.kind is PercentChance {
            random_scan(input, i + 1, depth, branches.push((a.kind->PercentChance_chance, i + 1, i + 1)))
        } else {
            let d = match a.kind {
                AtomKind::StartRandom { .. } => depth + 1,
                AtomKind::EndRandom { .. } => depth - 1,
                _ => depth,
            };
            if a.kind is EndRandom && d == 0 {
                (i + 1, branches)
            } else {
                let extended = if branches.len() > 0 {
                    let last = branches.last();
                    branches.update(branches.len() - 1, (last.0, last.1, i + 1))
                } else {
                    branches
                };
                random_scan(input, i + 1, d, extended)
            }
        }
    }
}

/// The branches lie in order between `lo` and the position after the scan.
pub open spec fn branches_within(branches: Seq<(Word, int, int)>, lo: int, hi: int) -> bool {
    forall|k: int| 0 <= k < branches.len() ==> lo <= (#[trigger] branches[k]).1 <= branches[k].2 <= hi
}

/// The scan ends within the input, and its branches lie within what it read.
pub proof fn lemma_random_scan(input: Seq<Atom>, i: int, depth: int, branches: Seq<(Word, int, int)>, lo: int)
    requires
        0 <= lo <= i <= input.len(),
        branches_within(branches, lo, i),
    ensures
        i <= random_scan(input, i, depth, branches).0 <= input.len(),
        branches_within(random_scan(input, i, depth, branches).1, lo, random_scan(input, i, depth, branches).0),
    decreases input.len() - i,
{
    if i < input.len() {
        let a = input[i];
        if depth == 1 && a.kind is PercentChance {
            lemma_random_scan(input, i + 1, depth, branches.push((a.kind->PercentChance_chance, i + 1, i + 1)), lo);
        } else {
            let d = match a.kind {
                AtomKind::StartRandom { .. } => depth + 1,
                AtomKind::EndRandom { .. } => depth - 1,
                _ => depth,
            };
            if !(a.kind is EndRandom && d == 0) {
                let extended = if branches.len() > 0 {
                    let last = branches.last();
                    branches.update(branches.len() - 1, (last.0, last.1, i + 1))
                } else {
                    branches
                };
                lemma_random_scan(input, i + 1, d, extended, lo);
            }
        }
    }
}

/// A branch is simple when it holds at most one atom, a definition or a command.
pub open spec fn branch_simple(input: Seq<Atom>, b: (Word, int, int)) -> bool {
    b.2 - b.1 <= 1 && (b.2 <= b.1 || (0 <= b.1 < input.len() && (input[b.1].kind is Define
        || input[b.1].kind is Const || input[b.1].kind is Undefine || input[b.1].kind is Command)))
}

/// Are all branches simple?
pub open spec fn all_simple(input: Seq<Atom>, branches: Seq<(Word, int, int)>) -> bool {
    forall|k: int| 0 <= k < branches.len() ==> branch_simple(input, #[trigger] branches[k])
}

/// The byte length of the longest `percent_chance` line among the first `n` branches.
pub open spec fn longest_chance(branches: Seq<(Word, int, int)>, n: int) -> usize
    decreases n,
{
    if n <= 0 {
        0
    } else {
        max_usize(longest_chance(branches, n - 1), 15usize.saturating_add(blen(branches[n - 1].0)))
    }
}

/// Simple branches, one line each, their atoms aligned after the `percent_chance` lines. The
/// atom of a branch is written as if it came where the statement ends, at `k`.
pub open spec fn simple_branches(
    o: FormatOptions,
    src: Seq<u8>,
    st: FmtState,
    branches: Seq<(Word, int, int)>,
    input: Seq<Atom>,
    k: int,
    longest: usize,
    j: int,
) -> FmtState
    decreases branches.len() - j,
{
    if j < 0 || j >= branches.len() {
        st
    } else {
        let (chance, a, b) = branches[j];
        let label = "percent_chance "@ + chance.value@ + repeat(
            ' ',
            longest.saturating_sub(15usize.saturating_add(blen(chance))) as int,
        );
        let s = st_text(o, st, label);
        let s = if b > a && 0 <= a < input.len() {
            fmt_plain(o, src, st_text(o, s, " "@), input[a], input, k)
        } else {
            st_newline(s)
        };
        simple_branches(o, src, s, branches, input, k, longest, j + 1)
    }
}

/// An atom and what it opens, from the atoms of `input` from `pos` on. Gives the state after
/// it and the position of the next atom.
pub open spec fn fmt_atom(
    o: FormatOptions,
    src: Seq<u8>,
    st: FmtState,
    atom: Atom,
    input: Seq<Atom>,
    pos: int,
) -> (FmtState, int)
    decreases input.len() - pos + 1, 1int, 0int,
{
    if pos < 0 || pos > input.len() {
        (st, pos)
    } else {
        let opened = FmtState {
            prev: Some((prev_kind(atom), atom.location)),
            ..fmt_pre(o, src, st, atom)
        };
        match atom.kind {
            AtomKind::OpenBlock { .. } => fmt_block(o, src, opened, input, pos),
            AtomKind::If { condition, .. } => fmt_condition(o, src, opened, condition, input, pos),
            AtomKind::StartRandom { .. } => fmt_random(o, src, opened, input, pos),
            _ => (fmt_plain(o, src, st, atom, input, pos), pos),
        }
    }
}

/// The atoms of `input` from `i` on.
pub open spec fn fmt_seq(o: FormatOptions, src: Seq<u8>, st: FmtState, input: Seq<Atom>, i: int) -> FmtState
    decreases input.len() - i, 2int, 0int,
{
    if i < 0 || i >= input.len() {
        st
    } else {
        let (s, p) = fmt_atom(o, src, st, input[i], input, i + 1);
        if p <= i || p > input.len() {
            s
        } else {
            fmt_seq(o, src, s, input, p)
        }
    }
}

/// A command block: its atoms up to the `}`, indented, with the widths of its commands.
pub open spec fn fmt_block(o: FormatOptions, src: Seq<u8>, st: FmtState, input: Seq<Atom>, pos: int) -> (FmtState, int)
    decreases input.len() - pos, 4int, 0int,
{
    if pos < 0 || pos > input.len() {
        (st, pos)
    } else {
        proof {
            lemma_find_close_block(input, pos);
        }
        let k = find_close_block(input, pos);
        let sub = input.subrange(pos, k);
        let s = FmtState { inside_block: st.inside_block.saturating_add(1), ..st };
        let s = st_indent_more(st_newline(st_text(o, s, "{"@)));
        let s = push_width(s, block_width(o, sub, sub.len() as int).0);
        let s = pop_width(fmt_seq(o, src, s, sub, 0));
        let s = if s.prev matches Some((PrevKind::Other, _)) {
            st_newline(s)
        } else {
            s
        };
        let s = FmtState { inside_block: s.inside_block.saturating_sub(1), ..s };
        let s = st_newline(st_text(o, st_indent_less(s), "}"@));
        (
            s,
            if k < input.len() {
                k + 1
            } else {
                input.len() as int
            },
        )
    }
}

/// The atoms of an `if` statement from `j` on, with its `elseif` and `else` branches.
pub open spec fn fmt_cond_loop(o: FormatOptions, src: Seq<u8>, st: FmtState, sub: Seq<Atom>, j: int) -> FmtState
    decreases sub.len() - j, 2int, 0int,
{
    if j < 0 || j >= sub.len() {
        st
    } else {
        match sub[j].kind {
            AtomKind::ElseIf { condition, .. } => fmt_cond_loop(
                o,
                src,
                st_indent_more(
                    st_newline(st_text(o, st_text(o, st_indent_less(st), "elseif "@), condition.value@)),
                ),
                sub,
                j + 1,
            ),
            AtomKind::Else { .. } => fmt_cond_loop(
                o,
                src,
                st_indent_more(st_newline(st_text(o, st_indent_less(st), "else"@))),
                sub,
                j + 1,
            ),
            _ => {
                let (s, p) = fmt_atom(o, src, st, sub[j], sub, j + 1);
                if p <= j || p > sub.len() {
                    s
                } else {
                    fmt_cond_loop(o, src, s, sub, p)
                }
            },
        }
    }
}

/// An `if` statement: its branches indented, up to the `endif` that closes it.
pub open spec fn fmt_condition(
    o: FormatOptions,
    src: Seq<u8>,
    st: FmtState,
    cond: Word,
    input: Seq<Atom>,
    pos: int,
) -> (FmtState, int)
    decreases input.len() - pos, 4int, 0int,
{
    if pos < 0 || pos > input.len() {
        (st, pos)
    } else {
        proof {
            lemma_find_endif(input, pos, 1);
        }
        let s = st_indent_more(st_newline(st_text(o, st_text(o, st, "if "@), cond.value@)));
        let (cw, aw) = last_width(s);
        let s = push_width(s, (cw.saturating_sub(2), aw));
        let k = find_endif(input, pos, 1);
        let s = pop_width(fmt_cond_loop(o, src, s, input.subrange(pos, k), 0));
        let s = st_newline(st_text(o, st_indent_less(s), "endif"@));
        let s = if s.inside_block == 0 {
            st_newline(s)
        } else {
            s
        };
        (
            s,
            if k < input.len() {
                k + 1
            } else {
                input.len() as int
            },
        )
    }
}

/// Branches that are not all simple: each `percent_chance` on a line of its own, and its atoms
/// indented below it.
pub open spec fn full_branches(
    o: FormatOptions,
    src: Seq<u8>,
    st: FmtState,
    branches: Seq<(Word, int, int)>,
    input: Seq<Atom>,
    bound: int,
    j: int,
) -> FmtState
    decreases bound, 3int, branches.len() - j,
{
    if j < 0 || j >= branches.len() {
        st
    } else {
        let (chance, a, b) = branches[j];
        let s = st_indent_more(st_newline(st_text(o, st, "percent_chance "@ + chance.value@)));
        let s = if 0 <= a <= b <= input.len() && b - a <= bound {
            fmt_seq(o, src, s, input.subrange(a, b), 0)
        } else {
            s
        };
        full_branches(o, src, st_indent_less(s), branches, input, bound, j + 1)
    }
}

/// A `start_random` statement: its branches, then `end_random`.
pub open spec fn fmt_random(o: FormatOptions, src: Seq<u8>, st: FmtState, input: Seq<Atom>, pos: int) -> (FmtState, int)
    decreases input.len() - pos, 4int, 0int,
{
    if pos < 0 || pos > input.len() {
        (st, pos)
    } else {
        let s = st_indent_more(st_newline(st_text(o, st, "start_random"@)));
        let s = push_width(s, (0, 0));
        let (k, branches) = random_scan(input, pos, 1, Seq::empty());
        let s = if all_simple(input, branches) {
            simple_branches(
                o,
                src,
                s,
                branches,
                input,
                k,
                longest_chance(branches, branches.len() as int),
                0,
            )
        } else {
            full_branches(o, src, s, branches, input, input.len() - pos, 0)
        };
        let s = st_newline(st_text(o, st_indent_less(pop_width(s)), "end_random"@));
        (s, k)
    }
}

/// The formatted text of a script whose atoms are `atoms`.
pub open spec fn format_atoms(o: FormatOptions, src: Seq<u8>, atoms: Seq<Atom>) -> Seq<char> {
    fmt_seq(effective_options(o), src, initial_state(), atoms, 0).result
}

/// The options as the formatter uses them: with tabs, the tab size plays no part, and is taken
/// as one.
pub closed spec fn effective_options(o: FormatOptions) -> FormatOptions {
    if o.use_spaces {
        o
    } else {
        FormatOptions { tab_size: 1, ..o }
    }
}

/// The options as the formatter uses them.
fn effective(o: FormatOptions) -> (r: FormatOptions)
    ensures
        r == effective_options(o),
{
    if o.use_spaces {
        o
    } else {
        FormatOptions { tab_size: 1, ..o }
    }
}

/// With tabs, the tab size does not change what the formatter writes: two sets of options that
/// both indent with tabs and agree on aligning arguments format every script alike.
pub proof fn law_tab_size_unused_with_tabs(o1: FormatOptions, o2: FormatOptions, src: Seq<u8>, atoms: Seq<Atom>)
    requires
        !o1.spec_use_spaces(),
        !o2.spec_use_spaces(),
        o1.spec_align_arguments() == o2.spec_align_arguments(),
    ensures
        format_atoms(o1, src, atoms) == format_atoms(o2, src, atoms),
{
    assert(effective_options(o1) == effective_options(o2));
}

/// The lines of a text, as `str::lines` splits them.
fn split_lines(v: &[char]) -> (r: Vec<Vec<char>>)
    ensures
        r@.map_values(|l: Vec<char>| l@) == lines_of(v@),
{
    let mut r: Vec<Vec<char>> = Vec::new();
    let mut i: usize = 0;
    assert(r@.map_values(|l: Vec<char>| l@) + lines_from(v@, 0) =~= lines_of(v@));
    while i < v.len()
        invariant
            i <= v@.len(),
            r@.map_values(|l: Vec<char>| l@) + lines_from(v@, i as int) == lines_of(v@),
        decreases v@.len() - i,
    {
        proof {
            lemma_find_nl(v@, i as int);
        }
        let mut j: usize = i;
        while j < v.len() && v[j] != '\n'
            invariant
                i <= j <= v@.len(),
                find_nl(v@, i as int) == find_nl(v@, j as int),
            decreases v@.len() - j,
        {
            j = j + 1;
        }
        let ghost before = r@.map_values(|l: Vec<char>| l@);
        if j < v.len() {
            let mut line = sub_chars(v, i, j);
            if line.len() > 0 && line[line.len() - 1] == '\r' {
                line.pop();
            }
            assert(line@ == strip_cr(v@.subrange(i as int, j as int)));
            r.push(line);
            assert(r@.map_values(|l: Vec<char>| l@) =~= before.push(strip_cr(v@.subrange(i as int, j as int))));
            assert(lines_from(v@, i as int) == seq![strip_cr(v@.subrange(i as int, j as int))] + lines_from(v@, j + 1));
            assert(r@.map_values(|l: Vec<char>| l@) + lines_from(v@, j + 1) =~= lines_of(v@));
            i = j + 1;
        } else {
            let line = sub_chars(v, i, j);
            r.push(line);
            assert(r@.map_values(|l: Vec<char>| l@) =~= before.push(v@.subrange(i as int, v@.len() as int)));
            assert(lines_from(v@, i as int) == seq![v@.subrange(i as int, v@.len() as int)]);
            assert(r@.map_values(|l: Vec<char>| l@) + lines_from(v@, j as int) =~= lines_of(v@));
            i = j;
        }
    }
    assert(r@.map_values(|l: Vec<char>| l@) + lines_from(v@, i as int) =~= r@.map_values(|l: Vec<char>| l@));
    r
}

/// How many of the lines are blank.
fn count_blank(lines: &Vec<Vec<char>>) -> (r: usize)
    ensures
        r == blank_count(lines@.map_values(|l: Vec<char>| l@), lines@.len() as int),
{
    let ghost ls = lines@.map_values(|l: Vec<char>| l@);
    let mut n: usize = 0;
    let mut i: usize = 0;
    while i < lines.len()
        invariant
            i <= lines@.len(),
            ls == lines@.map_values(|l: Vec<char>| l@),
            n == blank_count(ls, i as int),
            n <= i,
        decreases lines@.len() - i,
    {
        let t = trim_char_vec(lines[i].as_slice());
        assert(ls[i as int] == lines@[i as int]@);
        if t.len() == 0 {
            n = n + 1;
        }
        i = i + 1;
    }
    n
}

/// The body of a continuation line of a comment.
fn comment_line_body_of(l: &[char]) -> (r: Vec<char>)
    ensures
        r@ == comment_line_body(l@),
{
    let t = trim_char_vec(l);
    if t.len() >= 2 && t[0] == '*' && t[1] == ' ' {
        let mut i: usize = 0;
        while i < l.len() && ws_char(l[i])
            invariant
                i <= l@.len(),
                lead_ws(l@, i as int) == lead_ws(l@, 0),
            decreases l@.len() - i,
        {
            i = i + 1;
        }
        sub_chars(l, i, l.len())
    } else {
        sub_chars(l, 0, l.len())
    }
}

/// Is the atom a `}`?
fn is_close_block(atom: &Atom) -> (r: bool)
    ensures
        r == (atom.kind is CloseBlock),
{
    match atom.kind {
        AtomKind::CloseBlock { .. } => true,
        _ => false,
    }
}

/// The remembered kind of an atom.
fn kind_of(atom: &Atom) -> (r: PrevKind)
    ensures
        r == prev_kind(*atom),
{
    match atom.kind {
        AtomKind::CloseBlock { .. } => PrevKind::CloseBlock,
        AtomKind::Other { .. } => PrevKind::Other,
        _ => PrevKind::Plain,
    }
}

/// The widths of the commands of a block.
fn block_width_of(o: FormatOptions, sub: &[Atom]) -> (r: (usize, usize))
    ensures
        r == block_width(o, sub@, sub@.len() as int).0,
{
    let mut w: (usize, usize) = (0, 0);
    let mut ind: usize = 0;
    let mut n: usize = 0;
    while n < sub.len()
        invariant
            n <= sub@.len(),
            (w, ind) == block_width(o, sub@, n as int),
        decreases sub@.len() - n,
    {
        match &sub[n].kind {
            AtomKind::Command { name, arguments } => {
                let unit: u32 = if o.use_spaces {
                    o.tab_size
                } else {
                    1
                };
                let extra = saturating_mul(ind, unit as usize);
                let cw = name.value.len().saturating_add(extra);
                let first = if arguments.len() > 0 {
                    arguments[0].value.len()
                } else {
                    0
                };
                w = (if w.0 >= cw { w.0 } else { cw }, if w.1 >= first { w.1 } else { first });
            },
            AtomKind::If { .. } => {
                ind = ind.saturating_add(1);
            },
            AtomKind::EndIf { .. } => {
                ind = ind.saturating_sub(1);
            },
            _ => {},
        }
        n = n + 1;
    }
    w
}

impl<'f> Formatter<'f> {
    /// The source between two byte offsets, if they are character boundaries in order.
    fn source_between(&self, a: usize, b: usize) -> (r: Option<Vec<char>>)
        ensures
            match r {
                Some(v) => between(self.spec_source(), a as int, b as int) == Some(v@),
                None => between(self.spec_source(), a as int, b as int) is None,
            },
    {
        let len = self.source.as_bytes().len();
        let ok = if a <= b && b <= len {
            let ca = self.source.is_char_boundary(a);
            let cb = self.source.is_char_boundary(b);
            assert(ca == is_char_boundary(self.spec_source(), a as int));
            assert(cb == is_char_boundary(self.spec_source(), b as int));
            ca && cb
        } else {
            false
        };
        assert(ok == (0 <= a <= b <= self.spec_source().len() && is_char_boundary(self.spec_source(), a as int)
            && is_char_boundary(self.spec_source(), b as int)));
        if ok {
            let t = crate::text::str_slice(self.source, a, b);
            proof {
                crate::text::lemma_decode_bytes(t);
            }
            let v = str_chars(t);
            assert(v@ == decode_utf8(self.spec_source().subrange(a as int, b as int)));
            assert(between(self.spec_source(), a as int, b as int) == Some(v@));
            let r = Some(v);
            assert(r matches Some(x) && between(self.spec_source(), a as int, b as int) == Some(x@));
            r
        } else {
            assert(between(self.spec_source(), a as int, b as int) is None);
            None
        }
    }

    /// Is there a padding line between the atoms that end at `a` and start at `b`?
    ///
    /// A padding line is defined as a newline, followed by whitespace, followed by another
    /// newline.
    fn has_padding_line(&self, a: usize, b: usize) -> (r: bool)
        ensures
            r == has_padding(self.spec_source(), a as int, b as int),
    {
        match self.source_between(a, b) {
            Some(t) => {
                let lines = split_lines(t.as_slice());
                let n = count_blank(&lines);
                // at least 2 subsequent newlines? i.e., at least 3 lines? If the input ends
                // with a newline, `lines` doesn't generate a final empty item, so it will only
                // output two items.
                if t.len() > 0 && t[t.len() - 1] == '\n' {
                    n >= 2
                } else {
                    n >= 3
                }
            },
            None => false,
        }
    }

    /// Should the `next` atom be written at the end of the line the atom ending at `a` is on?
    ///
    /// If the `next` atom is a comment, and the input did not put a newline between the two
    /// atoms, it should.
    fn should_comment_be_on_same_line(&self, a: usize, b: usize, next: &Atom) -> (r: bool)
        ensures
            r == comment_on_same_line(self.spec_source(), a as int, b as int, *next),
    {
        if let AtomKind::Comment { .. } = &next.kind {
            match self.source_between(a, b) {
                Some(t) => {
                    let mut i: usize = 0;
                    while i < t.len()
                        invariant
                            i <= t@.len(),
                            forall|k: int| 0 <= k < i ==> t@[k] != '\n',
                            between(self.spec_source(), a as int, b as int) == Some(t@),
                            next.kind is Comment,
                        decreases t@.len() - i,
                    {
                        if t[i] == '\n' {
                            assert(t@[i as int] == '\n');
                            assert(t@.contains('\n'));
                            return false;
                        }
                        i = i + 1;
                    }
                    true
                },
                None => false,
            }
        } else {
            false
        }
    }

    /// Write a comment. Multiline comments are formatted Java-style, with a * at the start of
    /// each line.
    fn comment(&mut self, content: &str)
        ensures
            final(self)@ == st_comment(old(self).spec_options(), old(self)@, content@),
            final(self).spec_options() == old(self).spec_options(),
            final(self).spec_source() == old(self).spec_source(),
    {
        let ghost o = self.options;
        let chars = str_chars(content);
        let lines = split_lines(chars.as_slice());
        let ghost ls = lines@.map_values(|l: Vec<char>| l@);
        self.text("/* ");
        if lines.len() > 0 {
            let t = trim_char_vec(lines[0].as_slice());
            assert(ls[0] == lines@[0]@);
            self.text_chars(t.as_slice());
        }
        let ghost mid = self@;
        let mut i: usize = 1;
        while i < lines.len()
            invariant
                1 <= i,
                i <= lines@.len() || lines@.len() == 0,
                ls == lines@.map_values(|l: Vec<char>| l@),
                self.spec_options() == o,
                self.spec_source() == old(self).spec_source(),
                comment_rest(o, mid, ls, 1) == comment_rest(o, self@, ls, i as int),
            decreases lines@.len() - i,
        {
            self.newline();
            self.text(" * ");
            let body = comment_line_body_of(lines[i].as_slice());
            assert(ls[i as int] == lines@[i as int]@);
            self.text_chars(body.as_slice());
            i = i + 1;
        }
        if lines.len() > 1 {
            self.newline();
        }
        self.text(" */");
        self.newline();
    }

    /// The white space before an atom.
    fn pre(&mut self, atom: &Atom)
        ensures
            final(self)@ == fmt_pre(old(self).spec_options(), old(self).spec_source(), old(self)@, *atom),
            final(self).spec_options() == old(self).spec_options(),
            final(self).spec_source() == old(self).spec_source(),
    {
        // Add an additional newline after each }, and after a run of `Other` tokens.
        match self.prev {
            Some((PrevKind::CloseBlock, _)) => self.newline(),
            Some((PrevKind::Other, _)) => {
                if let AtomKind::Other { .. } = atom.kind {
                } else {
                    self.newline();
                }
            },
            _ => {},
        }
        if let Some((_, prev_location)) = self.prev {
            // Maintain padding lines, and do not add a line break before comments at the end
            // of a line.
            let a = prev_location.end.0;
            let b = atom.location.start.0;
            if self.has_padding_line(a, b) {
                self.newline();
            } else if self.should_comment_be_on_same_line(a, b, atom) {
                let n = self.result.len();
                if n >= 2 && self.result[n - 2] == '\r' && self.result[n - 1] == '\n' {
                    self.result.pop();
                    self.result.pop();
                }
                self.text(" ");
            }
        }
    }

    /// Write an atom that opens nothing.
    fn simple(&mut self, atom: &Atom, input: &[Atom], pos: usize)
        ensures
            final(self)@ == st_simple(old(self).spec_options(), old(self)@, *atom, input@, pos as int),
            final(self).spec_options() == old(self).spec_options(),
            final(self).spec_source() == old(self).spec_source(),
    {
        match &atom.kind {
            AtomKind::Section { name } => self.section(name),
            AtomKind::Define { name, .. } => self.define(name),
            AtomKind::Const { name, value, .. } => self.const_(name, value),
            AtomKind::Undefine { name, .. } => self.undefine(name),
            AtomKind::Command { name, arguments } => {
                let is_block = if pos < input.len() {
                    match input[pos].kind {
                        AtomKind::OpenBlock { .. } => true,
                        _ => false,
                    }
                } else {
                    false
                };
                self.command(name, arguments.as_slice(), is_block);
            },
            AtomKind::Comment { content, .. } => self.comment(content.as_str()),
            AtomKind::Other { value } => self.other(value),
            // Garbage non-matching branch statements
            AtomKind::ElseIf { condition, .. } => {
                self.text("elseif ");
                self.text(condition.value);
                self.newline();
            },
            AtomKind::Else { .. } => {
                self.text("else");
                self.newline();
            },
            AtomKind::EndIf { .. } => {
                self.text("endif");
                self.newline();
            },
            AtomKind::CloseBlock { .. } => {
                self.text("}");
                self.newline();
            },
            AtomKind::PercentChance { chance, .. } => {
                self.text("percent_chance ");
                self.text(chance.value);
                self.newline();
            },
            AtomKind::EndRandom { .. } => {
                self.text("end_random");
                self.newline();
            },
            _ => {},
        }
    }

    /// Write an atom that opens nothing, with the white space before it.
    fn write_plain(&mut self, atom: &Atom, input: &[Atom], pos: usize)
        ensures
            final(self)@ == fmt_plain(old(self).spec_options(), old(self).spec_source(), old(self)@, *atom, input@, pos as int),
            final(self).spec_options() == old(self).spec_options(),
            final(self).spec_source() == old(self).spec_source(),
    {
        self.pre(atom);
        self.simple(atom, input, pos);
        self.prev = Some((kind_of(atom), atom.location));
    }
}

impl<'f> Formatter<'f> {
    /// Write an atom and what it opens, reading the atoms it opens from `input` at `pos`.
    /// Gives the position of the next atom.
    fn write_atom(&mut self, atom: &Atom<'f>, input: &[Atom<'f>], pos: usize) -> (r: usize)
        requires
            pos <= input@.len(),
        ensures
            (final(self)@, r as int) == fmt_atom(old(self).spec_options(), old(self).spec_source(), old(self)@, *atom, input@, pos as int),
            pos <= r <= input@.len(),
            final(self).spec_options() == old(self).spec_options(),
            final(self).spec_source() == old(self).spec_source(),
        decreases input@.len() - pos + 1, 1int, 0int,
    {
        match &atom.kind {
            // These write what they open from `input`.
            AtomKind::OpenBlock { .. } => {
                self.pre(atom);
                self.prev = Some((kind_of(atom), atom.location));
                self.block(input, pos)
            },
            AtomKind::If { condition, .. } => {
                self.pre(atom);
                self.prev = Some((kind_of(atom), atom.location));
                self.condition(condition, input, pos)
            },
            AtomKind::StartRandom { .. } => {
                self.pre(atom);
                self.prev = Some((kind_of(atom), atom.location));
                self.random(input, pos)
            },
            _ => {
                self.write_plain(atom, input, pos);
                pos
            },
        }
    }

    /// Write all atoms of `input`.
    fn format_seq(&mut self, input: &[Atom<'f>])
        ensures
            final(self)@ == fmt_seq(old(self).spec_options(), old(self).spec_source(), old(self)@, input@, 0),
            final(self).spec_options() == old(self).spec_options(),
            final(self).spec_source() == old(self).spec_source(),
        decreases input@.len(), 2int, 0int,
    {
        let ghost o = self.options;
        let ghost src = self.spec_source();
        let mut i: usize = 0;
        while i < input.len()
            invariant
                i <= input@.len(),
                self.spec_options() == o,
                self.spec_source() == src,
                fmt_seq(o, src, old(self)@, input@, 0) == fmt_seq(o, src, self@, input@, i as int),
            decreases input@.len() - i,
        {
            let p = self.write_atom(&input[i], input, i + 1);
            i = p;
        }
    }

    /// Write a command block. This reads atoms from the input until the end of the block, and
    /// writes both the command and any attributes it may contain.
    fn block(&mut self, input: &[Atom<'f>], pos: usize) -> (r: usize)
        requires
            pos <= input@.len(),
        ensures
            (final(self)@, r as int) == fmt_block(old(self).spec_options(), old(self).spec_source(), old(self)@, input@, pos as int),
            pos <= r <= input@.len(),
            final(self).spec_options() == old(self).spec_options(),
            final(self).spec_source() == old(self).spec_source(),
        decreases input@.len() - pos, 4int, 0int,
    {
        proof {
            lemma_find_close_block(input@, pos as int);
        }
        let mut k: usize = pos;
        while k < input.len() && !is_close_block(&input[k])
            invariant
                pos <= k <= input@.len(),
                find_close_block(input@, pos as int) == find_close_block(input@, k as int),
            decreases input@.len() - k,
        {
            k = k + 1;
        }
        let sub = vstd::slice::slice_subrange(input, pos, k);
        let width = block_width_of(self.options, sub);
        self.inside_block = self.inside_block.saturating_add(1);
        self.text("{");
        self.newline();
        self.indent = self.indent.saturating_add(1);
        self.widths.push(width);
        self.format_seq(sub);
        self.widths.pop();
        // Manually add newline if there was garbage
        if let Some((PrevKind::Other, _)) = self.prev {
            self.newline();
        }
        self.inside_block = self.inside_block.saturating_sub(1);
        self.indent = self.indent.saturating_sub(1);
        self.text("}");
        self.newline();
        if k < input.len() {
            k + 1
        } else {
            input.len()
        }
    }

    /// Write the atoms of an `if` statement, with its `elseif` and `else` branches.
    fn cond_loop(&mut self, sub: &[Atom<'f>])
        ensures
            final(self)@ == fmt_cond_loop(old(self).spec_options(), old(self).spec_source(), old(self)@, sub@, 0),
            final(self).spec_options() == old(self).spec_options(),
            final(self).spec_source() == old(self).spec_source(),
        decreases sub@.len(), 2int, 0int,
    {
        let ghost o = self.options;
        let ghost src = self.spec_source();
        let mut j: usize = 0;
        while j < sub.len()
            invariant
                j <= sub@.len(),
                self.spec_options() == o,
                self.spec_source() == src,
                fmt_cond_loop(o, src, old(self)@, sub@, 0) == fmt_cond_loop(o, src, self@, sub@, j as int),
            decreases sub@.len() - j,
        {
            match &sub[j].kind {
                AtomKind::ElseIf { condition, .. } => {
                    self.indent = self.indent.saturating_sub(1);
                    self.text("elseif ");
                    self.text(condition.value);
                    self.newline();
                    self.indent = self.indent.saturating_add(1);
                    j = j + 1;
                },
                AtomKind::Else { .. } => {
                    self.indent = self.indent.saturating_sub(1);
                    self.text("else");
                    self.newline();
                    self.indent = self.indent.saturating_add(1);
                    j = j + 1;
                },
                _ => {
                    let p = self.write_atom(&sub[j], sub, j + 1);
                    j = p;
                },
            }
        }
    }

    /// Write an `if` statement, up to the `endif` that closes it.
    fn condition(&mut self, cond: &Word<'f>, input: &[Atom<'f>], pos: usize) -> (r: usize)
        requires
            pos <= input@.len(),
        ensures
            (final(self)@, r as int) == fmt_condition(old(self).spec_options(), old(self).spec_source(), old(self)@, *cond, input@, pos as int),
            pos <= r <= input@.len(),
            final(self).spec_options() == old(self).spec_options(),
            final(self).spec_source() == old(self).spec_source(),
        decreases input@.len() - pos, 4int, 0int,
    {
        proof {
            lemma_find_endif(input@, pos as int, 1);
        }
        self.text("if ");
        self.text(cond.value);
        self.newline();
        self.indent = self.indent.saturating_add(1);
        // reset command width so an if block within a command block does not over-indent.
        let (command_width, arg_width) = self.last_width();
        self.widths.push((command_width.saturating_sub(2), arg_width));
        let mut depth: u128 = 1;
        let mut k: usize = pos;
        let mut found = false;
        while k < input.len() && !found
            invariant
                pos <= k <= input@.len(),
                1 <= depth <= k - pos + 1,
                !found ==> find_endif(input@, pos as int, 1) == find_endif(input@, k as int, depth as int),
                found ==> k < input@.len() && find_endif(input@, pos as int, 1) == k,
            decreases input@.len() - k, if found { 0int } else { 1int },
        {
            match input[k].kind {
                AtomKind::If { .. } => {
                    depth = depth + 1;
                    k = k + 1;
                },
                AtomKind::EndIf { .. } => {
                    if depth - 1 == 0 {
                        found = true;
                    } else {
                        depth = depth - 1;
                        k = k + 1;
                    }
                },
                _ => {
                    k = k + 1;
                },
            }
        }
        let sub = vstd::slice::slice_subrange(input, pos, k);
        self.cond_loop(sub);
        self.widths.pop();
        self.indent = self.indent.saturating_sub(1);
        self.text("endif");
        self.newline();
        if self.inside_block == 0 {
            self.newline();
        }
        if k < input.len() {
            k + 1
        } else {
            input.len()
        }
    }
}

/// The branches, with their bounds as integers.
pub open spec fn branch_view<'a>(v: Seq<(Word<'a>, usize, usize)>) -> Seq<(Word<'a>, int, int)> {
    v.map_values(|b: (Word<'a>, usize, usize)| (b.0, b.1 as int, b.2 as int))
}

impl<'f> Formatter<'f> {
    /// Write a `start_random` statement, up to its `end_random`.
    fn random(&mut self, input: &[Atom<'f>], pos: usize) -> (r: usize)
        requires
            pos <= input@.len(),
        ensures
            (final(self)@, r as int) == fmt_random(old(self).spec_options(), old(self).spec_source(), old(self)@, input@, pos as int),
            pos <= r <= input@.len(),
            final(self).spec_options() == old(self).spec_options(),
            final(self).spec_source() == old(self).spec_source(),
        decreases input@.len() - pos, 4int, 0int,
    {
        let ghost o = self.options;
        let ghost src = self.spec_source();
        self.text("start_random");
        self.newline();
        self.indent = self.indent.saturating_add(1);
        // reset command width so a start_random within a command block does not over-indent.
        self.widths.push((0, 0));

        let mut branches: Vec<(Word<'f>, usize, usize)> = Vec::new();
        let mut depth: u128 = 1;
        let mut i: usize = pos;
        let mut end: usize = input.len();
        let mut done = false;
        assert(branch_view(branches@) =~= Seq::<(Word, int, int)>::empty());
        while i < input.len() && !done
            invariant
                pos <= i <= input@.len(),
                end <= input@.len(),
                depth <= i - pos + 1,
                !done ==> 1 <= depth,
                !done ==> end == input@.len(),
                !done ==> random_scan(input@, pos as int, 1, Seq::empty()) == random_scan(
                    input@,
                    i as int,
                    depth as int,
                    branch_view(branches@),
                ),
                done ==> random_scan(input@, pos as int, 1, Seq::empty()) == (end as int, branch_view(branches@)),
            decreases input@.len() - i, if done { 0int } else { 1int },
        {
            let ghost bv = branch_view(branches@);
            let is_chance = match input[i].kind {
                AtomKind::PercentChance { .. } => true,
                _ => false,
            };
            if depth == 1 && is_chance {
                if let AtomKind::PercentChance { chance, .. } = input[i].kind {
                    branches.push((chance, i + 1, i + 1));
                    assert(branch_view(branches@) =~= bv.push((chance, i + 1, i + 1)));
                }
                i = i + 1;
            } else {
                let d: u128 = match input[i].kind {
                    AtomKind::StartRandom { .. } => depth + 1,
                    AtomKind::EndRandom { .. } => depth - 1,
                    _ => depth,
                };
                let is_end = match input[i].kind {
                    AtomKind::EndRandom { .. } => true,
                    _ => false,
                };
                if is_end && d == 0 {
                    end = i + 1;
                    done = true;
                } else {
                    let n = branches.len();
                    if n > 0 {
                        let (w, start, _) = branches[n - 1];
                        branches.set(n - 1, (w, start, i + 1));
                        assert(branch_view(branches@) =~= bv.update(
                            bv.len() - 1,
                            (bv.last().0, bv.last().1, i + 1),
                        ));
                    }
                    depth = d;
                    i = i + 1;
                }
            }
        }
        let ghost br = branch_view(branches@);
        proof {
            assert(branches_within(Seq::<(Word, int, int)>::empty(), pos as int, pos as int));
            lemma_random_scan(input@, pos as int, 1, Seq::empty(), pos as int);
            assert(random_scan(input@, pos as int, 1, Seq::empty()) == (end as int, br));
        }

        let mut simple = true;
        let mut j: usize = 0;
        while j < branches.len()
            invariant
                j <= branches@.len(),
                br == branch_view(branches@),
                simple == forall|k: int| 0 <= k < j ==> branch_simple(input@, #[trigger] br[k]),
            decreases branches@.len() - j,
        {
            let (_, a, b) = branches[j];
            let ok = (b <= a || b - a <= 1) && (b <= a || (a < input.len() && match input[a].kind {
                AtomKind::Define { .. } => true,
                AtomKind::Const { .. } => true,
                AtomKind::Undefine { .. } => true,
                AtomKind::Command { .. } => true,
                _ => false,
            }));
            assert(br[j as int] == (branches@[j as int].0, a as int, b as int));
            if !ok {
                simple = false;
            }
            j = j + 1;
        }

        let ghost start_state = self@;
        if simple {
            let mut longest: usize = 0;
            let mut j: usize = 0;
            while j < branches.len()
                invariant
                    j <= branches@.len(),
                    br == branch_view(branches@),
                    longest == longest_chance(br, j as int),
                decreases branches@.len() - j,
            {
                let l = 15usize.saturating_add(branches[j].0.value.len());
                if l > longest {
                    longest = l;
                }
                j = j + 1;
            }
            let mut j: usize = 0;
            while j < branches.len()
                invariant
                    j <= branches@.len(),
                    br == branch_view(branches@),
                    end <= input@.len(),
                    self.spec_options() == o,
                    self.spec_source() == src,
                    longest == longest_chance(br, br.len() as int),
                    simple_branches(o, src, start_state, br, input@, end as int, longest, 0)
                        == simple_branches(o, src, self@, br, input@, end as int, longest, j as int),
                decreases branches@.len() - j,
            {
                let (chance, a, b) = branches[j];
                let ghost before = self@;
                self.maybe_indent();
                self.push_str("percent_chance ");
                self.push_str(chance.value);
                self.push_repeat(' ', longest.saturating_sub(15usize.saturating_add(chance.value.len())) as u64);
                assert(self@.result =~= st_text(o, before, "percent_chance "@ + chance.value@ + repeat(
                    ' ',
                    longest.saturating_sub(15usize.saturating_add(blen(chance))) as int,
                )).result);
                if b > a && a < input.len() {
                    self.text(" ");
                    self.write_plain(&input[a], input, end);
                } else {
                    self.newline();
                }
                j = j + 1;
            }
        } else {
            let mut j: usize = 0;
            while j < branches.len()
                invariant
                    j <= branches@.len(),
                    br == branch_view(branches@),
                    pos <= input@.len(),
                    self.spec_options() == o,
                    self.spec_source() == src,
                    full_branches(o, src, start_state, br, input@, input@.len() - pos, 0)
                        == full_branches(o, src, self@, br, input@, input@.len() - pos, j as int),
                decreases branches@.len() - j,
            {
                let (chance, a, b) = branches[j];
                let ghost before = self@;
                self.maybe_indent();
                self.push_str("percent_chance ");
                self.push_str(chance.value);
                assert(self@.result =~= st_text(o, before, "percent_chance "@ + chance.value@).result);
                self.newline();
                self.indent = self.indent.saturating_add(1);
                if a <= b && b <= input.len() && b - a <= input.len() - pos {
                    self.format_seq(vstd::slice::slice_subrange(input, a, b));
                }
                self.indent = self.indent.saturating_sub(1);
                j = j + 1;
            }
        }
        self.widths.pop();
        self.indent = self.indent.saturating_sub(1);
        self.text("end_random");
        self.newline();
        end
    }
}

/// Format an rms source string.
pub fn format(source: &str, options: FormatOptions) -> (r: String)
    ensures
        exists|ws: Seq<Word>, atoms: Seq<Atom>|
            #![trigger format_atoms(options, source.spec_bytes(), atoms), crate::wordize::words_of(ws, crate::diagnostic::FileId(0), source.spec_bytes())]
            {
                let steps = crate::parser::parse_from(ws, 0);
                &&& crate::wordize::words_of(ws, crate::diagnostic::FileId(0), source.spec_bytes())
                &&& atoms.len() == steps.len()
                &&& forall|i: int|
                    0 <= i < steps.len() ==> crate::parser::atom_matches(
                        #[trigger] atoms[i],
                        steps[i],
                        ws,
                        source.spec_bytes(),
                    )
                &&& r@ == format_atoms(options, source.spec_bytes(), atoms)
            },
{
    let atoms = crate::parser::parse_atoms(source);
    let mut formatter = Formatter::new(effective(options), source);
    formatter.format_seq(atoms.as_slice());
    let r = crate::casing::string_from_chars(formatter.result.as_slice());
    proof {
        let src = source.spec_bytes();
        let ws = choose|ws: Seq<Word>|
            {
                &&& crate::wordize::words_of(ws, crate::diagnostic::FileId(0), src)
                &&& atoms@.len() == crate::parser::parse_from(ws, 0).len()
                &&& forall|i: int|
                    0 <= i < atoms@.len() ==> crate::parser::atom_matches(
                        #[trigger] atoms@[i],
                        crate::parser::parse_from(ws, 0)[i],
                        ws,
                        src,
                    )
            };
        assert(r@ == format_atoms(options, src, atoms@));
        assert(crate::wordize::words_of(ws, crate::diagnostic::FileId(0), src));
    }
    r
}

} // verus!

verus! {

/// Does the text end with `t`?
pub open spec fn ends_with_text(r: Seq<char>, t: Seq<char>) -> bool {
    t.len() <= r.len() && r.subrange(r.len() - t.len(), r.len() as int) == t
}

/// A `#const` statement is written in full: whatever came before, the text after it ends with
/// `#const`, the name, a space, the value (when there is one) and a line break, so neither the
/// name nor the value is lost or changed.
pub proof fn law_const_written_in_full(
    o: FormatOptions,
    src: Seq<u8>,
    st: FmtState,
    atom: Atom,
    input: Seq<Atom>,
    pos: int,
)
    requires
        0 <= pos <= input.len(),
        atom.kind is Const,
    ensures
        ({
            let r = fmt_atom(o, src, st, atom, input, pos).0.result;
            match atom.kind {
                AtomKind::Const { name, value, .. } => ends_with_text(
                    r,
                    "#const "@ + name.value@ + " "@ + match value {
                        Some(v) => v.value@,
                        None => Seq::empty(),
                    } + "\r\n"@,
                ),
                _ => true,
            }
        }),
{
    reveal_strlit("\r\n");
    if let AtomKind::Const { name, value, .. } = atom.kind {
        let pre = st_indent(o, fmt_pre(o, src, st, atom));
        let v = match value {
            Some(v) => v.value@,
            None => Seq::empty(),
        };
        let t = "#const "@ + name.value@ + " "@ + v + "\r\n"@;
        let r = fmt_atom(o, src, st, atom, input, pos).0.result;
        assert(r =~= pre.result + t);
        assert(r.subrange(r.len() - t.len(), r.len() as int) =~= t);
    }
}

} // verus!
