//! Source positions, kept on the nodes of a tree for diagnostics.

use vstd::prelude::*;

verus! {

/// The place in the source text that a node was read from.
#[derive(Debug, PartialEq, Eq)]
pub struct Span {
    /// The text of the line.
    pub text: String,
    /// The line's number.
    pub line: usize,
    /// The column at which the node starts.
    pub start: usize,
    /// The column at which the node ends.
    pub end: usize,
}

/// What a [`Span`] holds, as plain mathematical values.
pub struct SpanView {
    pub text: Seq<char>,
    pub line: nat,
    pub start: nat,
    pub end: nat,
}

impl View for Span {
    type V = SpanView;

    open spec fn view(&self) -> SpanView {
        SpanView {
            text: self.text@,
            line: self.line as nat,
            start: self.start as nat,
            end: self.end as nat,
        }
    }
}

impl Clone for Span {
    fn clone(&self) -> (copy: Self)
        ensures
            copy@ == self@,
    {
        Span { text: self.text.clone(), line: self.line, start: self.start, end: self.end }
    }
}

/// A name in the source text, with the place it was read from.
#[derive(Debug, PartialEq, Eq)]
pub struct Identifier {
    pub name: String,
    pub span: Span,
}

/// What an [`Identifier`] holds, as plain mathematical values.
pub struct IdentifierView {
    pub name: Seq<char>,
    pub span: SpanView,
}

impl View for Identifier {
    type V = IdentifierView;

    open spec fn view(&self) -> IdentifierView {
        IdentifierView { name: self.name@, span: self.span@ }
    }
}

impl Clone for Identifier {
    fn clone(&self) -> (copy: Self)
        ensures
            copy@ == self@,
    {
        Identifier { name: self.name.clone(), span: self.span.clone() }
    }
}

} // verus!
