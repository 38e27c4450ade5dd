use fx50fh::keys::{key_for, InputCode, Key, KeyModifier, Keystroke};
use fx50fh::mode::{Base, Menu, Mode};
use fx50fh::token::Token;
use fx50fh::Calculator;

const ALL_KEYS: [Key; 49] = [
    Key::Shift,
    Key::Alpha,
    Key::Up,
    Key::Right,
    Key::Mode,
    Key::Prog,
    Key::Fmla,
    Key::Left,
    Key::Down,
    Key::PowNegOne,
    Key::Cubed,
    Key::Fraction,
    Key::SquareRoot,
    Key::Squared,
    Key::Power,
    Key::Log,
    Key::Ln,
    Key::Negative,
    Key::Base60,
    Key::Hyp,
    Key::Sin,
    Key::Cos,
    Key::Tan,
    Key::Rcl,
    Key::Eng,
    Key::BracketStart,
    Key::BracketEnd,
    Key::Comma,
    Key::MPlus,
    Key::Del,
    Key::Ac,
    Key::Add,
    Key::Subtract,
    Key::Multiply,
    Key::Divide,
    Key::_0,
    Key::_1,
    Key::_2,
    Key::_3,
    Key::_4,
    Key::_5,
    Key::_6,
    Key::_7,
    Key::_8,
    Key::_9,
    Key::Dot,
    Key::Exp,
    Key::Ans,
    Key::Exe,
];

fn stroke(code: InputCode) -> Option<Keystroke> {
    Some(Keystroke { code, pressed: true })
}

fn press(calc: &mut Calculator, code: InputCode) {
    calc.pretick(stroke(code));
    calc.tick();
}

fn type_keys(calc: &mut Calculator, keys: &str) {
    for c in keys.chars() {
        press(calc, InputCode::Char(c));
    }
}

fn typed(keys: &str) -> Calculator {
    let mut calc = Calculator::new();
    type_keys(&mut calc, keys);
    calc
}

#[test]
fn new_calculator_is_idle() {
    let calc = Calculator::new();
    assert_eq!(calc.mode(), Mode::Computation);
    assert_eq!(calc.menu(), None);
    assert_eq!(calc.pending_key(), None);
    assert_eq!(calc.modifier_key(), None);
    assert_eq!(calc.cursor_at(), 0);
    assert!(calc.user_input().is_empty());
}

#[test]
fn characters_map_to_keys() {
    let table = [
        ('`', Key::Shift),
        ('0', Key::_0),
        ('1', Key::_1),
        ('2', Key::_2),
        ('3', Key::_3),
        ('4', Key::_4),
        ('5', Key::_5),
        ('6', Key::_6),
        ('7', Key::_7),
        ('8', Key::_8),
        ('9', Key::_9),
        ('-', Key::Subtract),
        ('=', Key::Alpha),
        ('q', Key::Prog),
        ('w', Key::Fmla),
        ('e', Key::Exp),
        ('t', Key::PowNegOne),
        ('y', Key::Cubed),
        ('u', Key::Rcl),
        ('i', Key::Eng),
        ('o', Key::BracketStart),
        ('p', Key::BracketEnd),
        (']', Key::MPlus),
        ('\\', Key::Mode),
        ('a', Key::Fraction),
        ('s', Key::SquareRoot),
        ('d', Key::Squared),
        ('f', Key::Power),
        ('g', Key::Log),
        ('h', Key::Ln),
        ('k', Key::Ac),
        ('l', Key::Add),
        (';', Key::Multiply),
        ('z', Key::Negative),
        ('x', Key::Base60),
        ('c', Key::Hyp),
        ('v', Key::Sin),
        ('b', Key::Cos),
        ('n', Key::Tan),
        ('m', Key::Ans),
        (',', Key::Comma),
        ('.', Key::Dot),
        ('/', Key::Divide),
    ];
    for (c, key) in table {
        assert_eq!(key_for(stroke(InputCode::Char(c))), Some(key));
    }
}

#[test]
fn special_keys_map_to_keys() {
    assert_eq!(key_for(stroke(InputCode::Enter)), Some(Key::Exe));
    assert_eq!(key_for(stroke(InputCode::Backspace)), Some(Key::Del));
    assert_eq!(key_for(stroke(InputCode::Left)), Some(Key::Left));
    assert_eq!(key_for(stroke(InputCode::Down)), Some(Key::Down));
    assert_eq!(key_for(stroke(InputCode::Up)), Some(Key::Up));
    assert_eq!(key_for(stroke(InputCode::Right)), Some(Key::Right));
}

#[test]
fn other_input_presses_no_key() {
    assert_eq!(key_for(None), None);
    assert_eq!(key_for(stroke(InputCode::Other)), None);
    for c in ['r', 'j', 'A', 'Q', ' ', '[', '\'', '+', 'é'] {
        assert_eq!(key_for(stroke(InputCode::Char(c))), None);
    }
    assert_eq!(key_for(Some(Keystroke { code: InputCode::Char('1'), pressed: false })), None);
    assert_eq!(key_for(Some(Keystroke { code: InputCode::Enter, pressed: false })), None);
}

#[test]
fn pretick_sets_only_the_pending_key() {
    let mut calc = typed("12`");
    calc.pretick(stroke(InputCode::Char('l')));
    assert_eq!(calc.pending_key(), Some(Key::Add));
    assert_eq!(calc.modifier_key(), Some(KeyModifier::Shift));
    assert_eq!(calc.user_input(), &vec![Token::_1, Token::_2]);
    assert_eq!(calc.cursor_at(), 2);
    calc.pretick(None);
    assert_eq!(calc.pending_key(), None);
    calc.pretick(Some(Keystroke { code: InputCode::Char('l'), pressed: false }));
    assert_eq!(calc.pending_key(), None);
}

#[test]
fn key_names_are_the_variant_names() {
    for key in ALL_KEYS {
        assert_eq!(key.name(), format!("{:?}", key));
    }
}

#[test]
fn tick_without_key_changes_nothing() {
    let mut calc = typed("12`");
    calc.pretick(None);
    calc.tick();
    assert_eq!(calc.modifier_key(), Some(KeyModifier::Shift));
    assert_eq!(calc.user_input(), &vec![Token::_1, Token::_2]);
    assert_eq!(calc.cursor_at(), 2);
    assert_eq!(calc.menu(), None);
}

#[test]
fn shift_key_cycles_the_modifier() {
    assert_eq!(typed("`").modifier_key(), Some(KeyModifier::Shift));
    assert_eq!(typed("``").modifier_key(), None);
    assert_eq!(typed("c`").modifier_key(), Some(KeyModifier::ShiftHyp));
    assert_eq!(typed("c``").modifier_key(), Some(KeyModifier::Hyp));
    assert_eq!(typed("=`").modifier_key(), Some(KeyModifier::Shift));
    assert_eq!(typed("u`").modifier_key(), Some(KeyModifier::Shift));
}

#[test]
fn hyp_key_cycles_the_modifier() {
    assert_eq!(typed("c").modifier_key(), Some(KeyModifier::Hyp));
    assert_eq!(typed("cc").modifier_key(), None);
    assert_eq!(typed("`c").modifier_key(), Some(KeyModifier::ShiftHyp));
    assert_eq!(typed("`cc").modifier_key(), Some(KeyModifier::Shift));
    assert_eq!(typed("=c").modifier_key(), Some(KeyModifier::Hyp));
}

#[test]
fn alpha_and_recall_keys_set_the_modifier() {
    assert_eq!(typed("=").modifier_key(), Some(KeyModifier::Alpha));
    assert_eq!(typed("==").modifier_key(), None);
    assert_eq!(typed("`=").modifier_key(), Some(KeyModifier::Alpha));
    assert_eq!(typed("u").modifier_key(), Some(KeyModifier::Rcl));
    assert_eq!(typed("uu").modifier_key(), None);
    assert_eq!(typed("`u").modifier_key(), Some(KeyModifier::Sto));
    assert_eq!(typed("`uu").modifier_key(), Some(KeyModifier::Rcl));
    assert_eq!(typed("=u").modifier_key(), Some(KeyModifier::Rcl));
}

#[test]
fn mode_key_opens_turns_and_closes_the_menu() {
    assert_eq!(typed("\\").menu(), Some((Menu::ModeSelect, 0)));
    assert_eq!(typed("\\\\").menu(), Some((Menu::ModeSelect, 1)));
    assert_eq!(typed("\\\\\\").menu(), None);
    assert_eq!(typed("\\\\\\\\").menu(), Some((Menu::ModeSelect, 0)));
}

#[test]
fn mode_key_after_shift_only_uses_up_the_modifier() {
    let calc = typed("`\\");
    assert_eq!(calc.menu(), None);
    assert_eq!(calc.modifier_key(), None);
    let calc = typed("\\`\\");
    assert_eq!(calc.menu(), Some((Menu::ModeSelect, 0)));
    assert_eq!(calc.modifier_key(), None);
    let calc = typed("c`\\");
    assert_eq!(calc.menu(), None);
    assert_eq!(calc.modifier_key(), None);
    // another modifier stays and the menu opens
    let calc = typed("=\\");
    assert_eq!(calc.menu(), Some((Menu::ModeSelect, 0)));
    assert_eq!(calc.modifier_key(), Some(KeyModifier::Alpha));
}

#[test]
fn arrows_turn_the_pages_of_the_menu() {
    let mut calc = typed("\\");
    press(&mut calc, InputCode::Right);
    assert_eq!(calc.menu(), Some((Menu::ModeSelect, 1)));
    press(&mut calc, InputCode::Right);
    assert_eq!(calc.menu(), Some((Menu::ModeSelect, 0)));
    press(&mut calc, InputCode::Left);
    assert_eq!(calc.menu(), Some((Menu::ModeSelect, 1)));
    press(&mut calc, InputCode::Left);
    assert_eq!(calc.menu(), Some((Menu::ModeSelect, 0)));
}

#[test]
fn digits_choose_the_mode_from_the_menu() {
    let choices = [
        ('1', Mode::Computation),
        ('2', Mode::Complex),
        ('3', Mode::Base(Base::Decimal)),
        ('4', Mode::SingleStat),
        ('5', Mode::PairedStat),
        ('6', Mode::Program),
    ];
    for (c, mode) in choices {
        for page in ["\\", "\\\\"] {
            let mut calc = typed("12l3");
            type_keys(&mut calc, page);
            press(&mut calc, InputCode::Char(c));
            assert_eq!(calc.mode(), mode);
            assert_eq!(calc.menu(), None);
            assert!(calc.user_input().is_empty());
            assert_eq!(calc.cursor_at(), 0);
        }
    }
}

#[test]
fn clear_key_closes_the_menu() {
    let mut calc = typed("12\\");
    press(&mut calc, InputCode::Char('k'));
    assert_eq!(calc.menu(), None);
    assert_eq!(calc.mode(), Mode::Computation);
    assert_eq!(calc.user_input(), &vec![Token::_1, Token::_2]);
    assert_eq!(calc.cursor_at(), 2);
}

#[test]
fn other_keys_leave_the_menu_open() {
    for code in [
        InputCode::Char('7'),
        InputCode::Char('l'),
        InputCode::Up,
        InputCode::Down,
        InputCode::Enter,
        InputCode::Backspace,
    ] {
        let mut calc = typed("12\\");
        press(&mut calc, code);
        assert_eq!(calc.menu(), Some((Menu::ModeSelect, 0)));
        assert_eq!(calc.user_input(), &vec![Token::_1, Token::_2]);
        assert_eq!(calc.cursor_at(), 2);
    }
}

#[test]
fn key_under_modifier_in_menu_uses_up_the_modifier() {
    let mut calc = typed("\\=");
    assert_eq!(calc.modifier_key(), Some(KeyModifier::Alpha));
    press(&mut calc, InputCode::Char('2'));
    assert_eq!(calc.modifier_key(), None);
    assert_eq!(calc.menu(), Some((Menu::ModeSelect, 0)));
    assert_eq!(calc.mode(), Mode::Computation);
}

#[test]
fn keys_enter_their_tokens() {
    let calc = typed("fsa0123456789l-;/z");
    assert_eq!(
        calc.user_input(),
        &vec![
            Token::Power,
            Token::SquareRoot,
            Token::Fraction,
            Token::_0,
            Token::_1,
            Token::_2,
            Token::_3,
            Token::_4,
            Token::_5,
            Token::_6,
            Token::_7,
            Token::_8,
            Token::_9,
            Token::Add,
            Token::Subtract,
            Token::Multiply,
            Token::Divide,
            Token::Negative,
        ]
    );
    assert_eq!(calc.cursor_at(), 18);
}

#[test]
fn keys_under_modifiers_enter_their_tokens() {
    let calc = typed("`h");
    assert_eq!(calc.user_input(), &vec![Token::EPower]);
    assert_eq!(calc.modifier_key(), None);
    let calc = typed("c`h");
    assert_eq!(calc.user_input(), &vec![Token::EPower]);
    let calc = typed("=h");
    assert_eq!(calc.user_input(), &vec![Token::E]);
    assert_eq!(calc.modifier_key(), None);
    let calc = typed("`g");
    assert_eq!(calc.user_input(), &vec![Token::_10Power]);
    let calc = typed("c`g");
    assert_eq!(calc.user_input(), &vec![Token::_10Power]);
}

#[test]
fn key_without_token_uses_up_the_modifier() {
    // a digit under shift enters nothing
    let calc = typed("`1");
    assert!(calc.user_input().is_empty());
    assert_eq!(calc.modifier_key(), None);
    // ln and log without modifier enter nothing
    let calc = typed("hg");
    assert!(calc.user_input().is_empty());
    // ln under hyp enters nothing
    let calc = typed("ch");
    assert!(calc.user_input().is_empty());
    assert_eq!(calc.modifier_key(), None);
}

#[test]
fn tokens_enter_at_the_cursor() {
    let mut calc = typed("12");
    press(&mut calc, InputCode::Left);
    type_keys(&mut calc, "l");
    assert_eq!(calc.user_input(), &vec![Token::_1, Token::Add, Token::_2]);
    assert_eq!(calc.cursor_at(), 2);
    press(&mut calc, InputCode::Up);
    type_keys(&mut calc, "z");
    assert_eq!(calc.user_input(), &vec![Token::Negative, Token::_1, Token::Add, Token::_2]);
    assert_eq!(calc.cursor_at(), 1);
}

#[test]
fn arrows_move_the_cursor() {
    let mut calc = typed("123");
    assert_eq!(calc.cursor_at(), 3);
    press(&mut calc, InputCode::Right);
    assert_eq!(calc.cursor_at(), 3);
    press(&mut calc, InputCode::Left);
    assert_eq!(calc.cursor_at(), 2);
    press(&mut calc, InputCode::Up);
    assert_eq!(calc.cursor_at(), 0);
    press(&mut calc, InputCode::Left);
    assert_eq!(calc.cursor_at(), 0);
    press(&mut calc, InputCode::Right);
    assert_eq!(calc.cursor_at(), 1);
    press(&mut calc, InputCode::Down);
    assert_eq!(calc.cursor_at(), 3);
}

#[test]
fn arrows_keep_the_modifier() {
    let mut calc = typed("12`");
    press(&mut calc, InputCode::Left);
    assert_eq!(calc.modifier_key(), Some(KeyModifier::Shift));
    assert_eq!(calc.cursor_at(), 1);
}

#[test]
fn delete_removes_in_front_of_the_cursor() {
    let mut calc = typed("123");
    press(&mut calc, InputCode::Backspace);
    assert_eq!(calc.user_input(), &vec![Token::_1, Token::_2]);
    assert_eq!(calc.cursor_at(), 2);
    press(&mut calc, InputCode::Left);
    press(&mut calc, InputCode::Backspace);
    assert_eq!(calc.user_input(), &vec![Token::_2]);
    assert_eq!(calc.cursor_at(), 0);
}

#[test]
fn delete_at_the_front_removes_the_first_token() {
    let mut calc = typed("12");
    press(&mut calc, InputCode::Up);
    press(&mut calc, InputCode::Backspace);
    assert_eq!(calc.user_input(), &vec![Token::_2]);
    assert_eq!(calc.cursor_at(), 0);
    press(&mut calc, InputCode::Backspace);
    assert!(calc.user_input().is_empty());
    press(&mut calc, InputCode::Backspace);
    assert!(calc.user_input().is_empty());
    assert_eq!(calc.cursor_at(), 0);
}

#[test]
fn delete_under_modifier_only_uses_up_the_modifier() {
    let mut calc = typed("12`");
    press(&mut calc, InputCode::Backspace);
    assert_eq!(calc.user_input(), &vec![Token::_1, Token::_2]);
    assert_eq!(calc.modifier_key(), None);
}
