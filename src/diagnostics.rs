//! Source locations and the diagnostics gathered while parsing.

use vstd::prelude::*;
use crate::text::{decimal, join, join_strings, push_decimal, push_str, views};

verus! {

/// The name under which a source buffer was registered.
#[derive(Debug, Clone)]
pub enum FileName {
    /// A path on disk.
    Real(String),
    /// A name given by the caller, such as a module specifier.
    Custom(String),
    /// A buffer with no name.
    Anon,
}

/// A place in a source buffer: 1-based line, 0-based column.
#[derive(Debug, Clone)]
pub struct Location {
    pub filename: String,
    pub line: usize,
    pub col: usize,
}

/// `file:line:col`.
pub open spec fn location_text(l: Location) -> Seq<char> {
    l.filename@ + ":"@ + decimal(l.line as nat) + ":"@ + decimal(l.col as nat)
}

impl Location {
    /// The location of a line and display column in the buffer named `file`.
    pub fn from_loc(file: FileName, line: usize, col_display: usize) -> (r: Location)
        requires
            !(file is Anon),
        ensures
            r.line == line,
            r.col == col_display,
            match file {
                FileName::Real(p) => r.filename@ == p@,
                FileName::Custom(n) => r.filename@ == n@,
                FileName::Anon => false,
            },
    {
        let filename = match file {
            FileName::Real(p) => p,
            FileName::Custom(n) => n,
            FileName::Anon => String::new(),
        };
        Location { filename, line, col: col_display }
    }

    /// The location as `file:line:col`.
    pub fn to_string(&self) -> (r: String)
        ensures
            r@ == location_text(*self),
    {
        let mut r = String::new();
        push_str(&mut r, self.filename.as_str());
        push_str(&mut r, ":");
        push_decimal(&mut r, self.line);
        push_str(&mut r, ":");
        push_decimal(&mut r, self.col);
        r
    }
}

/// One diagnostic: its message and, where known, where it points.
#[derive(Debug, Clone)]
pub struct DiagnosticRecord {
    pub message: String,
    pub location: Option<Location>,
}

/// A diagnostic as text: `<message> at <file>:<line>:<col>`, or the bare
/// message when it has no location.
pub open spec fn rendered(d: DiagnosticRecord) -> Seq<char> {
    match d.location {
        Some(l) => d.message@ + " at "@ + location_text(l),
        None => d.message@,
    }
}

/// Renders one diagnostic.
pub fn render_record(d: &DiagnosticRecord) -> (r: String)
    ensures
        r@ == rendered(*d),
{
    let mut r = String::new();
    push_str(&mut r, d.message.as_str());
    match &d.location {
        Some(l) => {
            push_str(&mut r, " at ");
            let t = l.to_string();
            push_str(&mut r, t.as_str());
        },
        None => {},
    }
    r
}

/// The diagnostics of one parse, in the order they were emitted. Records
/// are only added; reading them takes the buffer.
#[derive(Debug, Clone)]
pub struct ErrorBuffer {
    records: Vec<DiagnosticRecord>,
}

impl View for ErrorBuffer {
    type V = Seq<DiagnosticRecord>;

    closed spec fn view(&self) -> Seq<DiagnosticRecord> {
        self.records@
    }
}

impl ErrorBuffer {
    /// An empty buffer.
    pub fn new() -> (r: ErrorBuffer)
        ensures
            r@ == Seq::<DiagnosticRecord>::empty(),
    {
        ErrorBuffer { records: Vec::new() }
    }

    /// Appends `d`.
    pub fn emit(&mut self, d: DiagnosticRecord)
        ensures
            final(self)@ == old(self)@.push(d),
    {
        self.records.push(d);
    }

    /// The number of diagnostics gathered.
    pub fn len(&self) -> (r: usize)
        ensures
            r == self@.len(),
    {
        self.records.len()
    }
}

/// The rendered diagnostics of a failed parse.
#[derive(Debug, Clone)]
pub struct DiagnosticBuffer {
    messages: Vec<String>,
}

impl View for DiagnosticBuffer {
    type V = Seq<Seq<char>>;

    closed spec fn view(&self) -> Seq<Seq<char>> {
        views(self.messages@)
    }
}

impl DiagnosticBuffer {
    /// Renders every diagnostic of `error_buffer`, in order.
    pub fn from_error_buffer(error_buffer: ErrorBuffer) -> (r: DiagnosticBuffer)
        ensures
            r@.len() == error_buffer@.len(),
            forall|k: int| 0 <= k < r@.len() ==> #[trigger] r@[k] == rendered(error_buffer@[k]),
    {
        let records = error_buffer.records;
        let mut messages: Vec<String> = Vec::new();
        let mut i: usize = 0;
        while i < records.len()
            invariant
                i <= records@.len(),
                messages@.len() == i,
                forall|k: int| 0 <= k < i ==> #[trigger] messages@[k]@ == rendered(records@[k]),
            decreases records@.len() - i,
        {
            messages.push(render_record(&records[i]));
            i = i + 1;
        }
        DiagnosticBuffer { messages }
    }

    /// The rendered diagnostics, in order.
    pub fn messages(&self) -> (r: Vec<String>)
        ensures
            views(r@) == self@,
    {
        self.messages.clone()
    }

    /// The rendered diagnostics joined by commas.
    pub fn to_string(&self) -> (r: String)
        ensures
            r@ == join(self@, ","@),
    {
        join_strings(&self.messages, ",")
    }
}

} // verus!
