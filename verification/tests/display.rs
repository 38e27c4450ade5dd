use crossterm::style::{Attribute, Attributes};
use fx50fh::display::{spaces, width_from};
use fx50fh::keys::{InputCode, Key, KeyModifier, Keystroke};
use fx50fh::mode::{Base, Menu, Mode};
use fx50fh::style::{BOLD, ITALIC};
use fx50fh::token::Token;
use fx50fh::{Calculator, DisplayBlock};

fn press(calc: &mut Calculator, code: InputCode) {
    calc.pretick(Some(Keystroke { code, pressed: true }));
    calc.tick();
}

fn typed(keys: &str) -> Calculator {
    let mut calc = Calculator::new();
    for c in keys.chars() {
        press(&mut calc, InputCode::Char(c));
    }
    calc
}

fn plain(blocks: &[DisplayBlock]) -> Vec<&str> {
    for block in blocks {
        assert!(!block.bold);
        assert!(!block.italic);
    }
    blocks.iter().map(|b| b.text.as_str()).collect()
}

fn shown(blocks: &[DisplayBlock]) -> Vec<(&str, bool, bool)> {
    blocks.iter().map(|b| (b.text.as_str(), b.bold, b.italic)).collect()
}

#[test]
fn modifier_status_names() {
    assert_eq!(KeyModifier::Shift.status_name(), "S     ");
    assert_eq!(KeyModifier::Alpha.status_name(), " A    ");
    assert_eq!(KeyModifier::Rcl.status_name(), "     R");
    assert_eq!(KeyModifier::Sto.status_name(), "    S ");
    assert_eq!(KeyModifier::ShiftHyp.status_name(), "S h   ");
    assert_eq!(KeyModifier::Hyp.status_name(), "  h   ");
}

#[test]
fn mode_status_names() {
    assert_eq!(Mode::Computation.status_name(), "      ");
    assert_eq!(Mode::Complex.status_name(), "CMPLX ");
    assert_eq!(Mode::Base(Base::Binary).status_name(), "     b");
    assert_eq!(Mode::Base(Base::Octal).status_name(), "     o");
    assert_eq!(Mode::Base(Base::Decimal).status_name(), "     d");
    assert_eq!(Mode::Base(Base::Hexadecimal).status_name(), "     h");
    assert_eq!(Mode::SingleStat.status_name(), "SD    ");
    assert_eq!(Mode::PairedStat.status_name(), "REG   ");
    assert_eq!(Mode::Program.status_name(), "PROG  ");
}

#[test]
fn mode_menu_has_two_pages() {
    assert_eq!(Menu::ModeSelect.pages(), 2);
    assert_eq!(
        Menu::ModeSelect.get_page(0),
        (vec![("COMP", 1, 0), ("CMPLX", 2, 1), ("BASE", 3, 1)], 1)
    );
    assert_eq!(
        Menu::ModeSelect.get_page(1),
        (vec![("SD", 4, 1), ("REG", 5, 2), ("PRGM", 6, 2)], 2)
    );
}

#[test]
fn tokens_are_displayed() {
    let table = [
        (Token::Power, "^("),
        (Token::SquareRoot, "√("),
        (Token::Fraction, "⅃"),
        (Token::_0, "0"),
        (Token::_1, "1"),
        (Token::_2, "2"),
        (Token::_3, "3"),
        (Token::_4, "4"),
        (Token::_5, "5"),
        (Token::_6, "6"),
        (Token::_7, "7"),
        (Token::_8, "8"),
        (Token::_9, "9"),
        (Token::Add, "+"),
        (Token::Subtract, "–"),
        (Token::Multiply, "×"),
        (Token::Divide, "÷"),
        (Token::Negative, "╶"),
        (Token::_10Power, "₁₀^("),
    ];
    for (token, text) in table {
        assert_eq!(shown(&token.as_display_block()), vec![(text, false, false)]);
    }
    assert_eq!(shown(&Token::E.as_display_block()), vec![("e", true, true)]);
    assert_eq!(
        shown(&Token::EPower.as_display_block()),
        vec![("e", true, true), ("^(", false, false)]
    );
}

#[test]
fn spaces_are_blanks() {
    assert_eq!(spaces(0), "");
    assert_eq!(spaces(1), " ");
    assert_eq!(spaces(5), "     ");
}

#[test]
fn width_counts_characters() {
    let blocks = vec![
        DisplayBlock::new("₁₀^(", false, false),
        DisplayBlock::new("", true, false),
        DisplayBlock::new("√(", false, false),
        DisplayBlock::new("e", true, true),
    ];
    assert_eq!(width_from(0, &blocks), 7);
    assert_eq!(width_from(10, &blocks), 17);
    assert_eq!(width_from(3, &Vec::new()), 3);
}

#[test]
fn block_keeps_text_and_style() {
    let block = DisplayBlock::new("abc", true, false);
    assert_eq!(block.text, "abc");
    assert!(block.bold);
    assert!(!block.italic);
}

#[test]
fn styled_block_carries_text_and_attributes() {
    for (bold, italic) in [(false, false), (true, false), (false, true), (true, true)] {
        let styled = DisplayBlock::new("√(x", bold, italic).as_styled();
        assert_eq!(styled.content(), "√(x");
        assert_eq!(styled.style().attributes.has(Attribute::Bold), bold);
        assert_eq!(styled.style().attributes.has(Attribute::Italic), italic);
        assert_eq!(styled.style().foreground_color, None);
        assert_eq!(styled.style().background_color, None);
    }
}

#[test]
fn styled_block_has_no_other_attribute() {
    for (bold, italic) in [(false, false), (true, false), (false, true), (true, true)] {
        let styled = DisplayBlock::new("e", bold, italic).as_styled();
        let mut expected = Attributes::default();
        if bold {
            expected.set(Attribute::Bold);
        }
        if italic {
            expected.set(Attribute::Italic);
        }
        assert_eq!(styled.style().attributes, expected);
    }
    assert!(DisplayBlock::new("e", false, false).as_styled().style().attributes.is_empty());
}

#[test]
fn attribute_places() {
    assert_eq!(Attribute::Bold as u32, BOLD);
    assert_eq!(Attribute::Italic as u32, ITALIC);
}

#[test]
fn display_of_new_calculator() {
    let (stat, top, bot, cursor) = Calculator::new().get_display();
    assert_eq!(stat, format!("{} {} r∠θR⇔I {:?}", "      ", "      ", None::<Key>));
    assert_eq!(plain(&top), vec![" "]);
    assert_eq!(bot, "            todo!");
    assert_eq!(cursor, Some((0, false)));
}

#[test]
fn status_line_shows_modifier_mode_and_key() {
    let (stat, _, _, _) = typed("`").get_display();
    assert_eq!(stat, format!("{} {} r∠θR⇔I {:?}", "S     ", "      ", Some(Key::Shift)));
    let (stat, _, _, _) = typed("\\2=").get_display();
    assert_eq!(stat, format!("{} {} r∠θR⇔I {:?}", " A    ", "CMPLX ", Some(Key::Alpha)));
    let (stat, _, _, _) = typed("\\3").get_display();
    assert_eq!(stat, " ".repeat(12) + "d r∠θR⇔I Some(_3)");
    let mut calc = typed("\\6");
    calc.pretick(None);
    calc.tick();
    let (stat, _, _, _) = calc.get_display();
    assert_eq!(stat, "       PROG   r∠θR⇔I None");
}

#[test]
fn display_of_input_line() {
    let (_, top, bot, cursor) = typed("1`h2=h").get_display();
    assert_eq!(
        shown(&top),
        vec![
            (" ", false, false),
            ("1", false, false),
            ("e", true, true),
            ("^(", false, false),
            ("2", false, false),
            ("e", true, true),
        ]
    );
    assert_eq!(bot, "            todo!");
    assert_eq!(cursor, Some((6, false)));
}

#[test]
fn cursor_column_counts_characters_in_front() {
    let mut calc = typed("s`g1");
    assert_eq!(calc.get_display().3, Some((7, false)));
    press(&mut calc, InputCode::Left);
    assert_eq!(calc.get_display().3, Some((6, false)));
    press(&mut calc, InputCode::Left);
    assert_eq!(calc.get_display().3, Some((2, false)));
    press(&mut calc, InputCode::Left);
    assert_eq!(calc.get_display().3, Some((0, false)));
    press(&mut calc, InputCode::Down);
    assert_eq!(calc.get_display().3, Some((7, false)));
}

#[test]
fn display_of_menu_pages() {
    let (_, top, bot, cursor) = typed("12\\").get_display();
    assert_eq!(plain(&top), vec!["←", "", "COMP", " ", "CMPLX", " ", "BASE", " ", "→"]);
    assert_eq!(bot, "  1     2     3      ");
    assert_eq!(cursor, None);
    let (_, top, bot, cursor) = typed("12\\\\").get_display();
    assert_eq!(plain(&top), vec!["←", " ", "SD", "  ", "REG", "  ", "PRGM", "  ", "→"]);
    assert_eq!(bot, "  4     5     6       ");
    assert_eq!(cursor, None);
}
