//! The calculator's keys, the modifiers that a key press can leave behind,
//! and the map from keyboard input to keys.

use vstd::prelude::*;

verus! {

/// What a key event of the keyboard names, as far as the calculator reads it.
#[derive(Debug, Clone, Copy, PartialEq, Eq, Structural)]
pub enum InputCode {
    Char(char),
    Enter,
    Backspace,
    Left,
    Down,
    Up,
    Right,
    Other,
}

/// One event of the keyboard: what it names, and whether it is a press
/// rather than a repeat or a release.
#[derive(Debug, Clone, Copy, PartialEq, Eq, Structural)]
pub struct Keystroke {
    pub code: InputCode,
    pub pressed: bool,
}

/// A key of the calculator.
#[allow(non_camel_case_types)]
#[derive(Debug, Clone, Copy, PartialEq, Eq, Structural)]
pub enum Key {
    Shift,
    Alpha,
    Up,
    Right,
    Mode,
    Prog,
    Fmla,
    Left,
    Down,
    PowNegOne,
    Cubed,
    Fraction,
    SquareRoot,
    Squared,
    Power,
    Log,
    Ln,
    Negative,
    Base60,
    Hyp,
    Sin,
    Cos,
    Tan,
    Rcl,
    Eng,
    BracketStart,
    BracketEnd,
    Comma,
    MPlus,
    Del,
    Ac,
    Add,
    Subtract,
    Multiply,
    Divide,
    _0,
    _1,
    _2,
    _3,
    _4,
    _5,
    _6,
    _7,
    _8,
    _9,
    Dot,
    Exp,
    Ans,
    Exe,
}

/// What the modifier keys pressed so far add up to.
#[derive(Debug, Clone, Copy, PartialEq, Eq, Structural)]
pub enum KeyModifier {
    Shift,
    ShiftHyp,
    Alpha,
    Rcl,
    Sto,
    Hyp,
}

/// The key that a character of the keyboard stands for, if any.
pub open spec fn char_key(c: char) -> Option<Key> {
    if c == '`' {
        Some(Key::Shift)
    } else if c == '0' {
        Some(Key::_0)
    } else if c == '1' {
        Some(Key::_1)
    } else if c == '2' {
        Some(Key::_2)
    } else if c == '3' {
        Some(Key::_3)
    } else if c == '4' {
        Some(Key::_4)
    } else if c == '5' {
        Some(Key::_5)
    } else if c == '6' {
        Some(Key::_6)
    } else if c == '7' {
        Some(Key::_7)
    } else if c == '8' {
        Some(Key::_8)
    } else if c == '9' {
        Some(Key::_9)
    } else if c == '-' {
        Some(Key::Subtract)
    } else if c == '=' {
        Some(Key::Alpha)
    } else if c == 'q' {
        Some(Key::Prog)
    } else if c == 'w' {
        Some(Key::Fmla)
    } else if c == 'e' {
        Some(Key::Exp)
    } else if c == 't' {
        Some(Key::PowNegOne)
    } else if c == 'y' {
        Some(Key::Cubed)
    } else if c == 'u' {
        Some(Key::Rcl)
    } else if c == 'i' {
        Some(Key::Eng)
    } else if c == 'o' {
        Some(Key::BracketStart)
    } else if c == 'p' {
        Some(Key::BracketEnd)
    } else if c == ']' {
        Some(Key::MPlus)
    } else if c == '\\' {
        Some(Key::Mode)
    } else if c == 'a' {
        Some(Key::Fraction)
    } else if c == 's' {
        Some(Key::SquareRoot)
    } else if c == 'd' {
        Some(Key::Squared)
    } else if c == 'f' {
        Some(Key::Power)
    } else if c == 'g' {
        Some(Key::Log)
    } else if c == 'h' {
        Some(Key::Ln)
    } else if c == 'k' {
        Some(Key::Ac)
    } else if c == 'l' {
        Some(Key::Add)
    } else if c == ';' {
        Some(Key::Multiply)
    } else if c == 'z' {
        Some(Key::Negative)
    } else if c == 'x' {
        Some(Key::Base60)
    } else if c == 'c' {
        Some(Key::Hyp)
    } else if c == 'v' {
        Some(Key::Sin)
    } else if c == 'b' {
        Some(Key::Cos)
    } else if c == 'n' {
        Some(Key::Tan)
    } else if c == 'm' {
        Some(Key::Ans)
    } else if c == ',' {
        Some(Key::Comma)
    } else if c == '.' {
        Some(Key::Dot)
    } else if c == '/' {
        Some(Key::Divide)
    } else {
        None
    }
}

/// The key that a keyboard event presses, if any: only a press counts, and
/// only of a character or special key that stands for a key.
pub open spec fn key_of(stroke: Option<Keystroke>) -> Option<Key> {
    match stroke {
        Some(Keystroke { code, pressed: true }) => match code {
            InputCode::Char(c) => char_key(c),
            InputCode::Enter => Some(Key::Exe),
            InputCode::Backspace => Some(Key::Del),
            InputCode::Left => Some(Key::Left),
            InputCode::Down => Some(Key::Down),
            InputCode::Up => Some(Key::Up),
            InputCode::Right => Some(Key::Right),
            InputCode::Other => None,
        },
        _ => None,
    }
}

/// Looks up the key that a keyboard event presses.
pub fn key_for(stroke: Option<Keystroke>) -> (key: Option<Key>)
    ensures
        key == key_of(stroke),
{
    match stroke {
        Some(Keystroke { code: InputCode::Char('`'), pressed: true }) => Some(Key::Shift),
        Some(Keystroke { code: InputCode::Char('0'), pressed: true }) => Some(Key::_0),
        Some(Keystroke { code: InputCode::Char('1'), pressed: true }) => Some(Key::_1),
        Some(Keystroke { code: InputCode::Char('2'), pressed: true }) => Some(Key::_2),
        Some(Keystroke { code: InputCode::Char('3'), pressed: true }) => Some(Key::_3),
        Some(Keystroke { code: InputCode::Char('4'), pressed: true }) => Some(Key::_4),
        Some(Keystroke { code: InputCode::Char('5'), pressed: true }) => Some(Key::_5),
        Some(Keystroke { code: InputCode::Char('6'), pressed: true }) => Some(Key::_6),
        Some(Keystroke { code: InputCode::Char('7'), pressed: true }) => Some(Key::_7),
        Some(Keystroke { code: InputCode::Char('8'), pressed: true }) => Some(Key::_8),
        Some(Keystroke { code: InputCode::Char('9'), pressed: true }) => Some(Key::_9),
        Some(Keystroke { code: InputCode::Char('-'), pressed: true }) => Some(Key::Subtract),
        Some(Keystroke { code: InputCode::Char('='), pressed: true }) => Some(Key::Alpha),
        Some(Keystroke { code: InputCode::Enter, pressed: true }) => Some(Key::Exe),
        Some(Keystroke { code: InputCode::Backspace, pressed: true }) => Some(Key::Del),
        Some(Keystroke { code: InputCode::Char('q'), pressed: true }) => Some(Key::Prog),
        Some(Keystroke { code: InputCode::Char('w'), pressed: true }) => Some(Key::Fmla),
        Some(Keystroke { code: InputCode::Char('e'), pressed: true }) => Some(Key::Exp),
        Some(Keystroke { code: InputCode::Char('t'), pressed: true }) => Some(Key::PowNegOne),
        Some(Keystroke { code: InputCode::Char('y'), pressed: true }) => Some(Key::Cubed),
        Some(Keystroke { code: InputCode::Char('u'), pressed: true }) => Some(Key::Rcl),
        Some(Keystroke { code: InputCode::Char('i'), pressed: true }) => Some(Key::Eng),
        Some(Keystroke { code: InputCode::Char('o'), pressed: true }) => Some(Key::BracketStart),
        Some(Keystroke { code: InputCode::Char('p'), pressed: true }) => Some(Key::BracketEnd),
        Some(Keystroke { code: InputCode::Char(']'), pressed: true }) => Some(Key::MPlus),
        Some(Keystroke { code: InputCode::Char('\\'), pressed: true }) => Some(Key::Mode),
        Some(Keystroke { code: InputCode::Char('a'), pressed: true }) => Some(Key::Fraction),
        Some(Keystroke { code: InputCode::Char('s'), pressed: true }) => Some(Key::SquareRoot),
        Some(Keystroke { code: InputCode::Char('d'), pressed: true }) => Some(Key::Squared),
        Some(Keystroke { code: InputCode::Char('f'), pressed: true }) => Some(Key::Power),
        Some(Keystroke { code: InputCode::Char('g'), pressed: true }) => Some(Key::Log),
        Some(Keystroke { code: InputCode::Char('h'), pressed: true }) => Some(Key::Ln),
        Some(Keystroke { code: InputCode::Char('k'), pressed: true }) => Some(Key::Ac),
        Some(Keystroke { code: InputCode::Char('l'), pressed: true }) => Some(Key::Add),
        Some(Keystroke { code: InputCode::Char(';'), pressed: true }) => Some(Key::Multiply),
        Some(Keystroke { code: InputCode::Char('z'), pressed: true }) => Some(Key::Negative),
        Some(Keystroke { code: InputCode::Char('x'), pressed: true }) => Some(Key::Base60),
        Some(Keystroke { code: InputCode::Char('c'), pressed: true }) => Some(Key::Hyp),
        Some(Keystroke { code: InputCode::Char('v'), pressed: true }) => Some(Key::Sin),
        Some(Keystroke { code: InputCode::Char('b'), pressed: true }) => Some(Key::Cos),
        Some(Keystroke { code: InputCode::Char('n'), pressed: true }) => Some(Key::Tan),
        Some(Keystroke { code: InputCode::Char('m'), pressed: true }) => Some(Key::Ans),
        Some(Keystroke { code: InputCode::Char(','), pressed: true }) => Some(Key::Comma),
        Some(Keystroke { code: InputCode::Char('.'), pressed: true }) => Some(Key::Dot),
        Some(Keystroke { code: InputCode::Char('/'), pressed: true }) => Some(Key::Divide),
        Some(Keystroke { code: InputCode::Left, pressed: true }) => Some(Key::Left),
        Some(Keystroke { code: InputCode::Down, pressed: true }) => Some(Key::Down),
        Some(Keystroke { code: InputCode::Up, pressed: true }) => Some(Key::Up),
        Some(Keystroke { code: InputCode::Right, pressed: true }) => Some(Key::Right),
        _ => None,
    }
}

impl KeyModifier {
    /// The six columns that show the modifier in the status line.
    pub open spec fn status_text(&self) -> Seq<char> {
        match self {
            KeyModifier::Shift => "S     "@,
            KeyModifier::Alpha => " A    "@,
            KeyModifier::Rcl => "     R"@,
            KeyModifier::Sto => "    S "@,
            KeyModifier::ShiftHyp => "S h   "@,
            KeyModifier::Hyp => "  h   "@,
        }
    }

    /// The modifier as the status line shows it.
    pub fn status_name(&self) -> (name: &'static str)
        ensures
            name@ == self.status_text(),
            name@.len() == 6,
    {
        proof {
            reveal_strlit("S     ");
            reveal_strlit(" A    ");
            reveal_strlit("     R");
            reveal_strlit("    S ");
            reveal_strlit("S h   ");
            reveal_strlit("  h   ");
        }
        match self {
            KeyModifier::Shift => "S     ",
            KeyModifier::Alpha => " A    ",
            KeyModifier::Rcl => "     R",
            KeyModifier::Sto => "    S ",
            KeyModifier::ShiftHyp => "S h   ",
            KeyModifier::Hyp => "  h   ",
        }
    }
}

impl Key {
    /// The name of the key, as it is written in the status line.
    pub open spec fn name_text(&self) -> Seq<char> {
        match self {
            Key::Shift => "Shift"@,
            Key::Alpha => "Alpha"@,
            Key::Up => "Up"@,
            Key::Right => "Right"@,
            Key::Mode => "Mode"@,
            Key::Prog => "Prog"@,
            Key::Fmla => "Fmla"@,
            Key::Left => "Left"@,
            Key::Down => "Down"@,
            Key::PowNegOne => "PowNegOne"@,
            Key::Cubed => "Cubed"@,
            Key::Fraction => "Fraction"@,
            Key::SquareRoot => "SquareRoot"@,
            Key::Squared => "Squared"@,
            Key::Power => "Power"@,
            Key::Log => "Log"@,
            Key::Ln => "Ln"@,
            Key::Negative => "Negative"@,
            Key::Base60 => "Base60"@,
            Key::Hyp => "Hyp"@,
            Key::Sin => "Sin"@,
            Key::Cos => "Cos"@,
            Key::Tan => "Tan"@,
            Key::Rcl => "Rcl"@,
            Key::Eng => "Eng"@,
            Key::BracketStart => "BracketStart"@,
            Key::BracketEnd => "BracketEnd"@,
            Key::Comma => "Comma"@,
            Key::MPlus => "MPlus"@,
            Key::Del => "Del"@,
            Key::Ac => "Ac"@,
            Key::Add => "Add"@,
            Key::Subtract => "Subtract"@,
            Key::Multiply => "Multiply"@,
            Key::Divide => "Divide"@,
            Key::_0 => "_0"@,
            Key::_1 => "_1"@,
            Key::_2 => "_2"@,
            Key::_3 => "_3"@,
            Key::_4 => "_4"@,
            Key::_5 => "_5"@,
            Key::_6 => "_6"@,
            Key::_7 => "_7"@,
            Key::_8 => "_8"@,
            Key::_9 => "_9"@,
            Key::Dot => "Dot"@,
            Key::Exp => "Exp"@,
            Key::Ans => "Ans"@,
            Key::Exe => "Exe"@,
        }
    }

    /// The name of the key.
    pub fn name(&self) -> (name: &'static str)
        ensures
            name@ == self.name_text(),
    {
        match self {
            Key::Shift => "Shift",
            Key::Alpha => "Alpha",
            Key::Up => "Up",
            Key::Right => "Right",
            Key::Mode => "Mode",
            Key::Prog => "Prog",
            Key::Fmla => "Fmla",
            Key::Left => "Left",
            Key::Down => "Down",
            Key::PowNegOne => "PowNegOne",
            Key::Cubed => "Cubed",
            Key::Fraction => "Fraction",
            Key::SquareRoot => "SquareRoot",
            Key::Squared => "Squared",
            Key::Power => "Power",
            Key::Log => "Log",
            Key::Ln => "Ln",
            Key::Negative => "Negative",
            Key::Base60 => "Base60",
            Key::Hyp => "Hyp",
            Key::Sin => "Sin",
            Key::Cos => "Cos",
            Key::Tan => "Tan",
            Key::Rcl => "Rcl",
            Key::Eng => "Eng",
            Key::BracketStart => "BracketStart",
            Key::BracketEnd => "BracketEnd",
            Key::Comma => "Comma",
            Key::MPlus => "MPlus",
            Key::Del => "Del",
            Key::Ac => "Ac",
            Key::Add => "Add",
            Key::Subtract => "Subtract",
            Key::Multiply => "Multiply",
            Key::Divide => "Divide",
            Key::_0 => "_0",
            Key::_1 => "_1",
            Key::_2 => "_2",
            Key::_3 => "_3",
            Key::_4 => "_4",
            Key::_5 => "_5",
            Key::_6 => "_6",
            Key::_7 => "_7",
            Key::_8 => "_8",
            Key::_9 => "_9",
            Key::Dot => "Dot",
            Key::Exp => "Exp",
            Key::Ans => "Ans",
            Key::Exe => "Exe",
        }
    }
}

} // verus!
