//! The parser for the description language: from a text to the machines
//! that it describes.

use vstd::prelude::*;
use crate::text::{Text, to_chars};
use crate::fsm::{FsmDefinition, FsmView};
use crate::parser::grammar::{Expected, Failure};
use crate::parser::tree::Block;

pub mod scan;
pub mod grammar;
pub mod tree;
pub mod reader;
pub mod lower;
pub mod laws;
pub mod progress;

verus! {

/// Why a text could not be parsed.
#[derive(Debug)]
pub enum ParseError {
    /// The text is not a description: the line where it stops being one,
    /// and what was expected there.
    SyntaxError { line: usize, message: String },
    /// A reference to a state that does not exist. The parser never
    /// reports it, because a state that is named is thereby declared.
    UnknownState(String),
}

/// A `ParseError` as contracts see it.
pub enum ParseErrorView {
    SyntaxError { line: usize, message: Text },
    UnknownState(Text),
}

impl DeepView for ParseError {
    type V = ParseErrorView;

    open spec fn deep_view(&self) -> ParseErrorView {
        match self {
            ParseError::SyntaxError { line, message } => ParseErrorView::SyntaxError {
                line: *line,
                message: message@,
            },
            ParseError::UnknownState(name) => ParseErrorView::UnknownState(name@),
        }
    }
}

impl View for ParseError {
    type V = ParseErrorView;

    open spec fn view(&self) -> ParseErrorView {
        self.deep_view()
    }
}

/// The text of an error, as it is shown to a user.
pub open spec fn error_text(e: ParseErrorView) -> Text {
    match e {
        ParseErrorView::SyntaxError { line, message } => "Invalid syntax at line "@
            + crate::text::decimal(line as nat) + ": "@ + message,
        ParseErrorView::UnknownState(name) => "Unknown state reference: "@ + name,
    }
}

impl ParseError {
    /// The text of the error, as it is shown to a user.
    pub fn to_text(&self) -> (out: String)
        ensures
            out@ == error_text(self@),
    {
        match self {
            ParseError::SyntaxError { line, message } => {
                let mut out = "Invalid syntax at line ".to_owned();
                out.append(crate::text::decimal_string(*line).as_str());
                out.append(": ");
                out.append(message.as_str());
                out
            },
            ParseError::UnknownState(name) => {
                let mut out = "Unknown state reference: ".to_owned();
                out.append(name.as_str());
                out
            },
        }
    }
}

/// What is said of a place where something else was expected.
pub open spec fn expected_text(e: Expected) -> Text {
    match e {
        Expected::Machine => "expected 'fsm'"@,
        Expected::Name => "expected a name"@,
        Expected::OpenBrace => "expected '{'"@,
        Expected::Arrow => "expected '->' or '-->'"@,
        Expected::Equals => "expected '='"@,
        Expected::Number => "expected a number"@,
        Expected::Slash => "expected '/'"@,
        Expected::CloseBracket => "expected ']'"@,
        Expected::CloseParen => "expected ',' or ')'"@,
        Expected::CloseChoice => "expected '>>'"@,
        Expected::Quote => "expected a closing quote"@,
        Expected::Target => "expected a target state"@,
        Expected::Parameter => "expected a parameter"@,
        Expected::Item => "expected a declaration or '}'"@,
        Expected::BodyItem => "expected a state body item or '}'"@,
        Expected::Branch => "expected a choice branch or '}'"@,
    }
}

/// What is said of a place where something else was expected.
pub fn expected_message(e: Expected) -> (out: String)
    ensures
        out@ == expected_text(e),
{
    match e {
        Expected::Machine => "expected 'fsm'".to_owned(),
        Expected::Name => "expected a name".to_owned(),
        Expected::OpenBrace => "expected '{'".to_owned(),
        Expected::Arrow => "expected '->' or '-->'".to_owned(),
        Expected::Equals => "expected '='".to_owned(),
        Expected::Number => "expected a number".to_owned(),
        Expected::Slash => "expected '/'".to_owned(),
        Expected::CloseBracket => "expected ']'".to_owned(),
        Expected::CloseParen => "expected ',' or ')'".to_owned(),
        Expected::CloseChoice => "expected '>>'".to_owned(),
        Expected::Quote => "expected a closing quote".to_owned(),
        Expected::Target => "expected a target state".to_owned(),
        Expected::Parameter => "expected a parameter".to_owned(),
        Expected::Item => "expected a declaration or '}'".to_owned(),
        Expected::BodyItem => "expected a state body item or '}'".to_owned(),
        Expected::Branch => "expected a choice branch or '}'".to_owned(),
    }
}

/// The error reported for a failure in the text `s`.
pub open spec fn syntax_error(s: Text, f: Failure) -> ParseErrorView {
    ParseErrorView::SyntaxError {
        line: scan::line_number(s, f.at),
        message: expected_text(f.expected),
    }
}

/// The blocks that a text holds, or the error reported for it.
pub open spec fn parsed_blocks(s: Text) -> Result<Seq<grammar::BlockView>, ParseErrorView> {
    match grammar::file(s) {
        Ok(bs) => Ok(bs),
        Err(f) => Err(syntax_error(s, f)),
    }
}

/// The machines that a text describes, in source order, or the error
/// reported for it.
pub open spec fn parsed(s: Text) -> Result<Seq<FsmView>, ParseErrorView> {
    match parsed_blocks(s) {
        Ok(bs) => Ok(lower::build_all(bs)),
        Err(e) => Err(e),
    }
}

/// The parser of the description language.
#[derive(Debug, Clone, Copy)]
pub struct FsmParser;

impl FsmParser {
    /// Reads the `fsm` blocks of `source` with their declarations, in
    /// source order. One syntax error fails the whole text.
    pub fn parse(source: &str) -> (r: Result<Vec<Block>, ParseError>)
        ensures
            match r {
                Ok(bs) => parsed_blocks(source@) == Ok::<Seq<grammar::BlockView>, ParseErrorView>(
                    bs.deep_view(),
                ),
                Err(e) => parsed_blocks(source@) == Err::<Seq<grammar::BlockView>, ParseErrorView>(
                    e@,
                ),
            },
    {
        let chars = to_chars(source);
        match reader::read_file(&chars) {
            Ok(bs) => Ok(bs),
            Err(f) => Err(
                ParseError::SyntaxError {
                    line: scan::find_line(&chars, f.at),
                    message: expected_message(f.expected),
                },
            ),
        }
    }
}

/// Parses a description into the machines it describes, in source order.
/// A state that is named but never declared becomes a simple state. One
/// syntax error fails the whole text: the error gives the line and what
/// was expected there.
pub fn parse_fsm(source: &str) -> (r: Result<Vec<FsmDefinition>, ParseError>)
    ensures
        laws::is_parse_of(r, source@),
{
    match FsmParser::parse(source) {
        Ok(bs) => Ok(lower::lower_all(&bs)),
        Err(e) => Err(e),
    }
}

} // verus!
