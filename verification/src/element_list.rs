//! The closed sets of operators that the scanners classify.

use vstd::prelude::*;

verus! {

/// A separator or connector between commands.
#[derive(Debug, Clone, Copy, PartialEq, Eq, Structural)]
pub enum ControlOperator {
    /// `;;&`
    SemiSemiAnd,
    /// `||`
    Or,
    /// `&&`
    And,
    /// `;;`
    DoubleSemicolon,
    /// `;&`
    SemiAnd,
    /// `|&`
    PipeAnd,
    /// `&`
    BgAnd,
    /// a newline
    NewLine,
    /// `|`
    Pipe,
    /// `;`
    Semicolon,
    /// `(`
    LeftParen,
    /// `)`
    RightParen,
}

impl ControlOperator {
    /// How the operator is written.
    pub open spec fn spelling(self) -> Seq<char> {
        match self {
            ControlOperator::SemiSemiAnd => seq![';', ';', '&'],
            ControlOperator::Or => seq!['|', '|'],
            ControlOperator::And => seq!['&', '&'],
            ControlOperator::DoubleSemicolon => seq![';', ';'],
            ControlOperator::SemiAnd => seq![';', '&'],
            ControlOperator::PipeAnd => seq!['|', '&'],
            ControlOperator::BgAnd => seq!['&'],
            ControlOperator::NewLine => seq!['\n'],
            ControlOperator::Pipe => seq!['|'],
            ControlOperator::Semicolon => seq![';'],
            ControlOperator::LeftParen => seq!['('],
            ControlOperator::RightParen => seq![')'],
        }
    }

    /// The number of characters in the operator's spelling.
    pub fn len(self) -> (n: usize)
        ensures
            n == self.spelling().len(),
            1 <= n <= 3,
    {
        match self {
            ControlOperator::SemiSemiAnd => 3,
            ControlOperator::Or
            | ControlOperator::And
            | ControlOperator::DoubleSemicolon
            | ControlOperator::SemiAnd
            | ControlOperator::PipeAnd => 2,
            _ => 1,
        }
    }
}

/// A marker that reroutes a command's input or output.
#[derive(Debug, Clone, Copy, PartialEq, Eq, Structural)]
pub enum RedirectOp {
    /// `<<<`
    HereStr,
    /// `&>>`
    AndAppend,
    /// `>>`
    Append,
    /// `<<`
    HereDoc,
    /// `>&`
    OutputAnd,
    /// `&>`
    AndOutput,
    /// `<>`
    InOut,
    /// `>`
    Output,
    /// `<`
    Input,
}

impl RedirectOp {
    /// How the operator is written.
    pub open spec fn spelling(self) -> Seq<char> {
        match self {
            RedirectOp::HereStr => seq!['<', '<', '<'],
            RedirectOp::AndAppend => seq!['&', '>', '>'],
            RedirectOp::Append => seq!['>', '>'],
            RedirectOp::HereDoc => seq!['<', '<'],
            RedirectOp::OutputAnd => seq!['>', '&'],
            RedirectOp::AndOutput => seq!['&', '>'],
            RedirectOp::InOut => seq!['<', '>'],
            RedirectOp::Output => seq!['>'],
            RedirectOp::Input => seq!['<'],
        }
    }

    /// The number of characters in the operator's spelling.
    pub fn len(self) -> (n: usize)
        ensures
            n == self.spelling().len(),
            1 <= n <= 3,
    {
        match self {
            RedirectOp::HereStr | RedirectOp::AndAppend => 3,
            RedirectOp::Output | RedirectOp::Input => 1,
            _ => 2,
        }
    }
}

} // verus!
