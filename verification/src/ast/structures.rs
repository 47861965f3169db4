use vstd::prelude::*;
use vstd::string::StringSliceAdditionalSpecFns;
use crate::ast::ast_nodes::{Expression, SourceUnit};
use crate::text::{count_newlines, line_of, parse_span_offset, span_offset};

verus! {

/// Why the line of a source span could not be told.
#[derive(Clone, Copy, Debug, PartialEq, Eq, Structural)]
pub enum SourceLineError {
    /// The source unit carries no source text, or the span does not start
    /// with a decimal offset that fits.
    NotFound,
    /// The offset lies behind the end of the source text.
    IndexOutOfBounds,
}

/// The line, counted from one, on which a span of the form
/// `offset:length:file` starts in a source text, or the reason why it
/// cannot be told.
pub open spec fn line_of_span(source: Option<Seq<u8>>, span: Seq<u8>) -> Result<nat, SourceLineError> {
    match source {
        None => Err(SourceLineError::NotFound),
        Some(text) => match span_offset(span) {
            None => Err(SourceLineError::NotFound),
            Some(offset) => if offset > usize::MAX {
                Err(SourceLineError::NotFound)
            } else if offset > text.len() {
                Err(SourceLineError::IndexOutOfBounds)
            } else {
                Ok(count_newlines(text.take(offset as int)) + 1)
            },
        },
    }
}

impl SourceUnit {
    /// The bytes of the source text, where the source unit carries it.
    pub open spec fn source_bytes(&self) -> Option<Seq<u8>> {
        match self.source {
            Some(text) => Some(vstd::utf8::encode_utf8(text@)),
            None => None,
        }
    }

    /// The line, counted from one, on which the given span starts in the
    /// source text of this unit.
    pub fn source_line(&self, src: &str) -> (r: Result<usize, SourceLineError>)
        ensures
            match r {
                Ok(line) => line_of_span(self.source_bytes(), src.spec_bytes()) == Ok::<
                    nat,
                    SourceLineError,
                >(line as nat),
                Err(e) => match line_of_span(self.source_bytes(), src.spec_bytes()) {
                    Ok(line) => line > usize::MAX && e == SourceLineError::IndexOutOfBounds,
                    Err(f) => e == f,
                },
            },
    {
        let source = match &self.source {
            Some(source) => source.as_str(),
            None => {
                return Err(SourceLineError::NotFound);
            },
        };
        let index = match parse_span_offset(src) {
            Some(index) => index,
            None => {
                return Err(SourceLineError::NotFound);
            },
        };
        match line_of(source, index) {
            Some(line) => Ok(line),
            None => Err(SourceLineError::IndexOutOfBounds),
        }
    }
}

impl Expression {
    /// The line, counted from one, on which the expression starts in the
    /// source text of the given unit.
    pub fn source_line(&self, source_unit: &SourceUnit) -> (r: Result<usize, SourceLineError>)
        ensures
            match r {
                Ok(line) => line_of_span(
                    source_unit.source_bytes(),
                    vstd::utf8::encode_utf8(self.span()),
                ) == Ok::<nat, SourceLineError>(line as nat),
                Err(e) => match line_of_span(
                    source_unit.source_bytes(),
                    vstd::utf8::encode_utf8(self.span()),
                ) {
                    Ok(line) => line > usize::MAX && e == SourceLineError::IndexOutOfBounds,
                    Err(f) => e == f,
                },
            },
    {
        source_unit.source_line(self.src())
    }
}

} // verus!
