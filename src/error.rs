//! Errors reported by the resolution engine.
use vstd::prelude::*;

verus! {

/// A range of source text that an error points at.
#[derive(Debug, Clone, Copy, PartialEq, Eq, Structural)]
pub struct Span {
    pub start: u32,
    pub end: u32,
}

/// A semantic error: a message, where it applies, and optionally the message
/// already rendered with its surrounding source.
#[derive(Debug, Clone)]
pub struct Error {
    pub span: Span,
    pub msg: String,
    pub highlighted: Option<String>,
}

impl Error {
    /// An error at `span` with the message `msg`.
    pub fn new(span: Span, msg: String) -> (r: Error)
        ensures
            r.span == span,
            r.msg@ == msg@,
            r.highlighted is None,
    {
        Error { span, msg, highlighted: None }
    }

    /// An error that points at no source text.
    pub fn without_span(msg: String) -> (r: Error)
        ensures
            r.span == (Span { start: 0, end: 0 }),
            r.msg@ == msg@,
            r.highlighted is None,
    {
        Error::new(Span { start: 0, end: 0 }, msg)
    }

    /// The text shown for this error: the highlighted form when there is one.
    pub fn message(&self) -> (r: String)
        ensures
            r@ == match self.highlighted {
                Some(h) => h@,
                None => self.msg@,
            },
    {
        match &self.highlighted {
            Some(h) => h.clone(),
            None => self.msg.clone(),
        }
    }
}

} // verus!
