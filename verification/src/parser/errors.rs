use vstd::prelude::*;
use vstd::string::StringExecFns;

verus! {

/// What is being declared where a name or a type is found unfit.
#[derive(Debug, Clone, Copy, PartialEq, Eq, Structural)]
pub enum DeclarationKind {
    Variable,
    Argument,
}

/// The place of a value that could not be read.
#[derive(Debug, Clone, Copy, PartialEq, Eq, Structural)]
pub enum ValueKind {
    Variable,
    Parameter,
    Return,
}

/// What the parser reports while it works. A report does not by itself end
/// the parse.
#[allow(inconsistent_fields)]
#[derive(Debug, Clone, PartialEq, Eq)]
pub enum ParseError {
    /// The grammar asks for the token `expected` where `found` stands.
    MissingToken { expected: String, found: String },
    /// The token in the place of a name cannot serve as one.
    InvalidName { reason: DeclarationKind },
    /// The token in the place of a variable's or an argument's type names none.
    UnresolvedType { reason: DeclarationKind },
    /// The token in the place of a function's return type names none.
    UnresolvedReturnType,
    /// The tokens ran out before a block was closed.
    MissingBlockEnd,
    /// No expression starts at the token `found`.
    InvalidValue { reason: ValueKind, found: String },
    /// A function declaration has no block.
    MissingBlock,
    /// The tokens ran out on a line break.
    UnexpectedEnd,
}

/// A report as the contracts see it.
#[allow(inconsistent_fields)]
pub enum ParseErrorView {
    MissingToken { expected: Seq<char>, found: Seq<char> },
    InvalidName { reason: DeclarationKind },
    UnresolvedType { reason: DeclarationKind },
    UnresolvedReturnType,
    MissingBlockEnd,
    InvalidValue { reason: ValueKind, found: Seq<char> },
    MissingBlock,
    UnexpectedEnd,
}

impl ParseErrorView {
    /// The report in words.
    pub open spec fn message(self) -> Seq<char> {
        match self {
            ParseErrorView::MissingToken { expected, found } => "Expected "@ + expected + ", got "@
                + found,
            ParseErrorView::InvalidName { reason: DeclarationKind::Variable } => {
                "Invalid variable name"@
            },
            ParseErrorView::InvalidName { reason: DeclarationKind::Argument } => {
                "Invalid argument name"@
            },
            ParseErrorView::UnresolvedType { reason: DeclarationKind::Variable } => {
                "Invalid variable type"@
            },
            ParseErrorView::UnresolvedType { reason: DeclarationKind::Argument } => {
                "Invalid argument type"@
            },
            ParseErrorView::UnresolvedReturnType => "Invalid return type"@,
            ParseErrorView::MissingBlockEnd => "Could not find the end of the block!"@,
            ParseErrorView::InvalidValue { reason: ValueKind::Variable, found } => {
                "Invalid variable value"@
            },
            ParseErrorView::InvalidValue { reason: ValueKind::Return, found } => {
                "Invalid return value"@
            },
            ParseErrorView::InvalidValue { reason: ValueKind::Parameter, found } => {
                "Invalid function parameter '"@ + found + "'"@
            },
            ParseErrorView::MissingBlock => "Invalid block"@,
            ParseErrorView::UnexpectedEnd => "Peek out of range"@,
        }
    }
}

impl View for ParseError {
    type V = ParseErrorView;

    open spec fn view(&self) -> ParseErrorView {
        match self {
            ParseError::MissingToken { expected, found } => ParseErrorView::MissingToken {
                expected: expected@,
                found: found@,
            },
            ParseError::InvalidName { reason } => ParseErrorView::InvalidName { reason: *reason },
            ParseError::UnresolvedType { reason } => ParseErrorView::UnresolvedType {
                reason: *reason,
            },
            ParseError::UnresolvedReturnType => ParseErrorView::UnresolvedReturnType,
            ParseError::MissingBlockEnd => ParseErrorView::MissingBlockEnd,
            ParseError::InvalidValue { reason, found } => ParseErrorView::InvalidValue {
                reason: *reason,
                found: found@,
            },
            ParseError::MissingBlock => ParseErrorView::MissingBlock,
            ParseError::UnexpectedEnd => ParseErrorView::UnexpectedEnd,
        }
    }
}

impl ParseError {
    /// The report in words.
    pub fn message(&self) -> (text: String)
        ensures
            text@ == self@.message(),
    {
        match self {
            ParseError::MissingToken { expected, found } => {
                let mut text = "Expected ".to_owned();
                text.append(expected.as_str());
                text.append(", got ");
                text.append(found.as_str());
                text
            },
            ParseError::InvalidName { reason } => match reason {
                DeclarationKind::Variable => "Invalid variable name".to_owned(),
                DeclarationKind::Argument => "Invalid argument name".to_owned(),
            },
            ParseError::UnresolvedType { reason } => match reason {
                DeclarationKind::Variable => "Invalid variable type".to_owned(),
                DeclarationKind::Argument => "Invalid argument type".to_owned(),
            },
            ParseError::UnresolvedReturnType => "Invalid return type".to_owned(),
            ParseError::MissingBlockEnd => "Could not find the end of the block!".to_owned(),
            ParseError::InvalidValue { reason, found } => match reason {
                ValueKind::Variable => "Invalid variable value".to_owned(),
                ValueKind::Return => "Invalid return value".to_owned(),
                ValueKind::Parameter => {
                    let mut text = "Invalid function parameter '".to_owned();
                    text.append(found.as_str());
                    text.append("'");
                    text
                },
            },
            ParseError::MissingBlock => "Invalid block".to_owned(),
            ParseError::UnexpectedEnd => "Peek out of range".to_owned(),
        }
    }
}

/// The views of a run of reports, in order.
pub open spec fn errors_view(errors: Seq<ParseError>) -> Seq<ParseErrorView> {
    Seq::new(errors.len(), |i: int| errors[i]@)
}

} // verus!
