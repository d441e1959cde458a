//! Data structures for diagnostics.

use vstd::prelude::*;
use vstd::string::*;

verus! {

/// Identifies one of the files of a map script.
#[derive(Debug, Clone, Copy, PartialEq, Eq, Structural, Hash)]
pub struct FileId(pub u32);

impl FileId {
    /// The file with the given number.
    pub fn new(id: u32) -> (r: Self)
        ensures
            r.0 == id,
    {
        FileId(id)
    }

    /// The number of this file.
    pub fn to_u32(self) -> (r: u32)
        ensures
            r == self.0,
    {
        self.0
    }

    /// The number of this file, as an index.
    pub fn to_usize(self) -> (r: usize)
        ensures
            r == self.0,
    {
        self.0 as usize
    }
}

/// Byte index in a file.
#[derive(Debug, Clone, Copy, PartialEq, Eq, Structural, Hash)]
pub struct ByteIndex(pub usize);

impl ByteIndex {
    /// The byte index `n`.
    pub fn from(n: usize) -> (r: Self)
        ensures
            r.0 == n,
    {
        ByteIndex(n)
    }

    /// The index as a plain number.
    pub fn to_usize(self) -> (r: usize)
        ensures
            r == self.0,
    {
        self.0
    }
}

/// Source code location structure, identifying a range of source code.
#[derive(Debug, Clone, Copy, PartialEq, Eq, Structural, Hash)]
pub struct SourceLocation {
    pub file: FileId,
    pub start: ByteIndex,
    pub end: ByteIndex,
}

impl SourceLocation {
    /// Create a source code range.
    pub fn new(file: FileId, start: ByteIndex, end: ByteIndex) -> (r: Self)
        ensures
            r.file == file,
            r.start == start,
            r.end == end,
    {
        SourceLocation { file, start, end }
    }

    /// Return the file this range refers to.
    pub fn file(self) -> (r: FileId)
        ensures
            r == self.file,
    {
        self.file
    }

    /// Return the byte range this location refers to, as a pair of start and end.
    pub fn range(self) -> (r: (ByteIndex, ByteIndex))
        ensures
            r == (self.start, self.end),
    {
        (self.start, self.end)
    }

    /// Return the start of the range.
    pub fn start(self) -> (r: ByteIndex)
        ensures
            r == self.start,
    {
        self.start
    }

    /// Return the end of the range.
    pub fn end(self) -> (r: ByteIndex)
        ensures
            r == self.end,
    {
        self.end
    }
}

/// Severity of a diagnostic.
#[derive(Debug, Clone, Copy, PartialEq, Eq, Structural, Hash)]
pub enum Severity {
    /// Something could not be parsed.
    ParseError,
    Error,
    Warning,
    Hint,
}

/// The content of a [`Fix`].
pub struct FixView {
    pub message: Seq<char>,
    pub location: SourceLocation,
    pub replacement: Option<Seq<char>>,
}

/// The content of a [`Label`].
pub struct LabelView {
    pub location: SourceLocation,
    pub message: Seq<char>,
}

/// The content of a [`Diagnostic`].
pub struct DiagnosticView {
    pub severity: Severity,
    pub location: SourceLocation,
    pub message: Seq<char>,
    pub code: Option<Seq<char>>,
    pub fixes: Seq<FixView>,
    pub suggestions: Seq<FixView>,
    pub labels: Seq<LabelView>,
}

/// A fix with the given location and message and no replacement.
pub open spec fn fix_view(location: SourceLocation, message: Seq<char>) -> FixView {
    FixView { message, location, replacement: None }
}

/// A fix with the given location, message and replacement.
pub open spec fn fix_replace_view(
    location: SourceLocation,
    message: Seq<char>,
    replacement: Seq<char>,
) -> FixView {
    FixView { message, location, replacement: Some(replacement) }
}

/// A fresh diagnostic: no code, fixes, suggestions or extra labels.
pub open spec fn diagnostic_view(
    severity: Severity,
    location: SourceLocation,
    message: Seq<char>,
) -> DiagnosticView {
    DiagnosticView {
        severity,
        location,
        message,
        code: None,
        fixes: Seq::empty(),
        suggestions: Seq::empty(),
        labels: Seq::empty(),
    }
}

/// A diagnostic with a code attached.
pub open spec fn with_code_view(d: DiagnosticView, code: Seq<char>) -> DiagnosticView {
    DiagnosticView { code: Some(code), ..d }
}

/// A diagnostic with one more suggestion.
pub open spec fn suggest_view(d: DiagnosticView, fix: FixView) -> DiagnosticView {
    DiagnosticView { suggestions: d.suggestions.push(fix), ..d }
}

/// A diagnostic with one more autofix.
pub open spec fn autofix_view(d: DiagnosticView, fix: FixView) -> DiagnosticView {
    DiagnosticView { fixes: d.fixes.push(fix), ..d }
}

/// A diagnostic with one more label.
pub open spec fn label_view(d: DiagnosticView, label: LabelView) -> DiagnosticView {
    DiagnosticView { labels: d.labels.push(label), ..d }
}

/// A source code replacement that may fix a problem.
#[derive(Debug, Clone, Hash)]
pub struct Fix {
    message: String,
    location: SourceLocation,
    replacement: Option<String>,
}

impl View for Fix {
    type V = FixView;

    closed spec fn view(&self) -> FixView {
        FixView {
            message: self.message@,
            location: self.location,
            replacement: match self.replacement {
                Some(r) => Some(r@),
                None => None,
            },
        }
    }
}

impl Fix {
    /// A fix for the code at `location`, described by `message`.
    pub fn new(location: SourceLocation, message: &str) -> (r: Self)
        ensures
            r@ == fix_view(location, message@),
    {
        Fix { location, message: String::from_str(message), replacement: None }
    }

    /// The same fix, replacing the code with `replacement`.
    pub fn replace(self, replacement: &str) -> (r: Self)
        ensures
            r@ == fix_replace_view(self@.location, self@.message, replacement@),
    {
        Fix { replacement: Some(String::from_str(replacement)), ..self }
    }

    /// The description of this fix.
    pub fn message(&self) -> (r: &str)
        ensures
            r@ == self@.message,
    {
        self.message.as_str()
    }

    /// The code this fix applies to.
    pub fn location(&self) -> (r: SourceLocation)
        ensures
            r == self@.location,
    {
        self.location
    }

    /// The replacement text, if any.
    pub fn replacement(&self) -> (r: Option<&str>)
        ensures
            r matches Some(s) ==> self@.replacement == Some(s@),
            r is None ==> self@.replacement is None,
    {
        match &self.replacement {
            Some(s) => Some(s.as_str()),
            None => None,
        }
    }
}

/// A label describing an underlined region of code associated with a diagnostic.
#[derive(Debug, Clone, Hash)]
pub struct Label {
    location: SourceLocation,
    message: String,
}

impl View for Label {
    type V = LabelView;

    closed spec fn view(&self) -> LabelView {
        LabelView { location: self.location, message: self.message@ }
    }
}

impl Label {
    /// A label on the code at `location`.
    pub fn new(location: SourceLocation, message: &str) -> (r: Self)
        ensures
            r@ == (LabelView { location, message: message@ }),
    {
        Label { location, message: String::from_str(message) }
    }

    /// The code this label underlines.
    pub fn location(&self) -> (r: SourceLocation)
        ensures
            r == self@.location,
    {
        self.location
    }

    /// The text of this label.
    pub fn message(&self) -> (r: &str)
        ensures
            r@ == self@.message,
    {
        self.message.as_str()
    }
}

/// Represents a diagnostic message that can provide information like errors and warnings to the user.
#[derive(Debug, Clone, Hash)]
pub struct Diagnostic {
    severity: Severity,
    label: Label,
    code: Option<String>,
    fixes: Vec<Fix>,
    suggestions: Vec<Fix>,
    labels: Vec<Label>,
}

impl View for Diagnostic {
    type V = DiagnosticView;

    closed spec fn view(&self) -> DiagnosticView {
        DiagnosticView {
            severity: self.severity,
            location: self.label@.location,
            message: self.label@.message,
            code: match self.code {
                Some(c) => Some(c@),
                None => None,
            },
            fixes: self.fixes@.map_values(|f: Fix| f@),
            suggestions: self.suggestions@.map_values(|f: Fix| f@),
            labels: self.labels@.map_values(|l: Label| l@),
        }
    }
}

impl Diagnostic {
    /// A diagnostic of the given severity.
    pub fn new(severity: Severity, location: SourceLocation, message: &str) -> (r: Self)
        ensures
            r@ == diagnostic_view(severity, location, message@),
    {
        let r = Diagnostic {
            severity,
            label: Label::new(location, message),
            code: None,
            fixes: Vec::new(),
            suggestions: Vec::new(),
            labels: Vec::new(),
        };
        assert(r@.fixes =~= Seq::<FixView>::empty());
        assert(r@.suggestions =~= Seq::<FixView>::empty());
        assert(r@.labels =~= Seq::<LabelView>::empty());
        r
    }

    /// A diagnostic for code that could not be parsed.
    pub fn parse_error(location: SourceLocation, message: &str) -> (r: Self)
        ensures
            r@ == diagnostic_view(Severity::ParseError, location, message@),
    {
        Self::new(Severity::ParseError, location, message)
    }

    /// An error diagnostic.
    pub fn error(location: SourceLocation, message: &str) -> (r: Self)
        ensures
            r@ == diagnostic_view(Severity::Error, location, message@),
    {
        Self::new(Severity::Error, location, message)
    }

    /// A warning diagnostic.
    pub fn warning(location: SourceLocation, message: &str) -> (r: Self)
        ensures
            r@ == diagnostic_view(Severity::Warning, location, message@),
    {
        Self::new(Severity::Warning, location, message)
    }

    /// The same diagnostic with the code `code`.
    pub fn with_code(self, code: &str) -> (r: Self)
        ensures
            r@ == with_code_view(self@, code@),
    {
        Diagnostic { code: Some(String::from_str(code)), ..self }
    }

    /// The same diagnostic with the given labels added after its labels.
    pub fn add_labels(self, labels: Vec<Label>) -> (r: Self)
        ensures
            r@ == (DiagnosticView {
                labels: self@.labels + labels@.map_values(|l: Label| l@),
                ..self@
            }),
    {
        let mut d = self;
        let mut labels = labels;
        let ghost before = d.labels@;
        let ghost added = labels@;
        d.labels.append(&mut labels);
        assert(d.labels@.map_values(|l: Label| l@) =~= before.map_values(|l: Label| l@)
            + added.map_values(|l: Label| l@));
        d
    }

    /// The same diagnostic with one more label.
    pub fn add_label(self, label: Label) -> (r: Self)
        ensures
            r@ == label_view(self@, label@),
    {
        let mut d = self;
        let ghost before = d.labels@;
        d.labels.push(label);
        assert(d.labels@.map_values(|l: Label| l@) =~= before.map_values(|l: Label| l@).push(
            label@,
        ));
        d
    }

    /// The same diagnostic with a fix that can be applied automatically.
    pub fn autofix(self, fix: Fix) -> (r: Self)
        ensures
            r@ == autofix_view(self@, fix@),
    {
        let mut d = self;
        let ghost before = d.fixes@;
        d.fixes.push(fix);
        assert(d.fixes@.map_values(|f: Fix| f@) =~= before.map_values(|f: Fix| f@).push(fix@));
        d
    }

    /// The same diagnostic with a suggested fix that needs a human's judgement.
    pub fn suggest(self, fix: Fix) -> (r: Self)
        ensures
            r@ == suggest_view(self@, fix@),
    {
        let mut d = self;
        let ghost before = d.suggestions@;
        d.suggestions.push(fix);
        assert(d.suggestions@.map_values(|f: Fix| f@) =~= before.map_values(|f: Fix| f@).push(
            fix@,
        ));
        d
    }

    /// The severity.
    pub fn severity(&self) -> (r: Severity)
        ensures
            r == self@.severity,
    {
        self.severity
    }

    /// The code of the lint that raised this diagnostic, if any.
    pub fn code(&self) -> (r: Option<&str>)
        ensures
            r matches Some(s) ==> self@.code == Some(s@),
            r is None ==> self@.code is None,
    {
        match &self.code {
            Some(s) => Some(s.as_str()),
            None => None,
        }
    }

    /// The message.
    pub fn message(&self) -> (r: &str)
        ensures
            r@ == self@.message,
    {
        self.label.message()
    }

    /// The code this diagnostic is about.
    pub fn location(&self) -> (r: SourceLocation)
        ensures
            r == self@.location,
    {
        self.label.location()
    }

    /// The extra labels.
    pub fn labels(&self) -> (r: &[Label])
        ensures
            r@.map_values(|l: Label| l@) == self@.labels,
    {
        self.labels.as_slice()
    }

    /// The fixes that can be applied automatically.
    pub fn fixes(&self) -> (r: &[Fix])
        ensures
            r@.map_values(|f: Fix| f@) == self@.fixes,
    {
        self.fixes.as_slice()
    }

    /// The suggested fixes.
    pub fn suggestions(&self) -> (r: &[Fix])
        ensures
            r@.map_values(|f: Fix| f@) == self@.suggestions,
    {
        self.suggestions.as_slice()
    }
}

} // verus!
