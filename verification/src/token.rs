//! The tokens of the input line and how each is displayed.

use crate::display::{blocks_view, plain, styled, DisplayBlock, DisplayBlockView};
use vstd::prelude::*;

verus! {

/// One entry of the input line.
#[allow(non_camel_case_types)]
#[derive(Debug, Clone, Copy, PartialEq, Eq, Structural)]
pub enum Token {
    Power,
    SquareRoot,
    EPower,
    E,
    Fraction,
    _0,
    _1,
    _2,
    _3,
    _4,
    _5,
    _6,
    _7,
    _8,
    _9,
    Add,
    Subtract,
    Multiply,
    Divide,
    Negative,
    _10Power,
}

impl Token {
    /// The blocks that display the token.
    pub open spec fn blocks(&self) -> Seq<DisplayBlockView> {
        match self {
            Token::Power => seq![plain("^("@)],
            Token::SquareRoot => seq![plain("√("@)],
            Token::E => seq![styled("e"@, true, true)],
            Token::EPower => seq![styled("e"@, true, true), plain("^("@)],
            Token::Fraction => seq![plain("⅃"@)],
            Token::_0 => seq![plain("0"@)],
            Token::_1 => seq![plain("1"@)],
            Token::_2 => seq![plain("2"@)],
            Token::_3 => seq![plain("3"@)],
            Token::_4 => seq![plain("4"@)],
            Token::_5 => seq![plain("5"@)],
            Token::_6 => seq![plain("6"@)],
            Token::_7 => seq![plain("7"@)],
            Token::_8 => seq![plain("8"@)],
            Token::_9 => seq![plain("9"@)],
            Token::Add => seq![plain("+"@)],
            Token::Subtract => seq![plain("–"@)],
            Token::Multiply => seq![plain("×"@)],
            Token::Divide => seq![plain("÷"@)],
            Token::Negative => seq![plain("╶"@)],
            Token::_10Power => seq![plain("₁₀^("@)],
        }
    }

    /// The blocks that display the token: its text, and for the constant `e`
    /// a bold italic letter.
    pub fn as_display_block(&self) -> (blocks: Vec<DisplayBlock>)
        ensures
            blocks_view(blocks@) == self.blocks(),
    {
        let blocks = match self {
            Token::Power => vec![DisplayBlock::new("^(", false, false)],
            Token::SquareRoot => vec![DisplayBlock::new("√(", false, false)],
            Token::E => vec![DisplayBlock::new("e", true, true)],
            Token::EPower => vec![
                DisplayBlock::new("e", true, true),
                DisplayBlock::new("^(", false, false),
            ],
            Token::Fraction => vec![DisplayBlock::new("⅃", false, false)],
            Token::_0 => vec![DisplayBlock::new("0", false, false)],
            Token::_1 => vec![DisplayBlock::new("1", false, false)],
            Token::_2 => vec![DisplayBlock::new("2", false, false)],
            Token::_3 => vec![DisplayBlock::new("3", false, false)],
            Token::_4 => vec![DisplayBlock::new("4", false, false)],
            Token::_5 => vec![DisplayBlock::new("5", false, false)],
            Token::_6 => vec![DisplayBlock::new("6", false, false)],
            Token::_7 => vec![DisplayBlock::new("7", false, false)],
            Token::_8 => vec![DisplayBlock::new("8", false, false)],
            Token::_9 => vec![DisplayBlock::new("9", false, false)],
            Token::Add => vec![DisplayBlock::new("+", false, false)],
            Token::Subtract => vec![DisplayBlock::new("–", false, false)],
            Token::Multiply => vec![DisplayBlock::new("×", false, false)],
            Token::Divide => vec![DisplayBlock::new("÷", false, false)],
            Token::Negative => vec![DisplayBlock::new("╶", false, false)],
            Token::_10Power => vec![DisplayBlock::new("₁₀^(", false, false)],
        };
        proof {
            assert(blocks_view(blocks@) =~= self.blocks());
        }
        blocks
    }
}

} // verus!
