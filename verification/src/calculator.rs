//! The calculator's state and what a key does to it.
//!
//! The keyboard is read elsewhere. Each round, `pretick` takes the event of
//! the keyboard, if there was one, and `tick` lets the key that it pressed
//! act on the state.

use crate::display::{blanks, blocks_view, blocks_width, plain, spaces, width_from, DisplayBlock};
use crate::keys::{key_for, key_of, Key, KeyModifier, Keystroke};
use crate::mode::{item_view, items_view, Base, Menu, MenuItemView, Mode};
use crate::screen::{
    bottom_line, cursor_of, item_blocks, item_digits, lemma_line_width_monotone,
    lemma_width_concat, line_blocks, menu_bottom, menu_top, page_mark, status_line, top_line,
};
use crate::text::number_text;
use crate::token::Token;
use vstd::prelude::*;
use vstd::string::*;

verus! {

/// The state of the calculator.
#[derive(Debug)]
pub struct Calculator {
    mode: Mode,
    menu: Option<(Menu, usize)>,
    pending_key: Option<Key>,
    modifier_key: Option<KeyModifier>,
    cursor_at: usize,
    replace_mode: bool,
    user_input: Vec<Token>,
}

/// The state of the calculator as contracts see it.
pub struct CalculatorView {
    /// What the calculator computes with.
    pub mode: Mode,
    /// The open menu and its page, if a menu is open.
    pub menu: Option<(Menu, usize)>,
    /// The key pressed in this round, if any.
    pub pending_key: Option<Key>,
    /// What the modifier keys pressed so far add up to.
    pub modifier_key: Option<KeyModifier>,
    /// The place in the input line in front of which the cursor stands.
    pub cursor_at: usize,
    /// Whether a token overwrites the one under the cursor.
    pub replace_mode: bool,
    /// The input line.
    pub user_input: Seq<Token>,
}

impl View for Calculator {
    type V = CalculatorView;

    closed spec fn view(&self) -> CalculatorView {
        CalculatorView {
            mode: self.mode,
            menu: self.menu,
            pending_key: self.pending_key,
            modifier_key: self.modifier_key,
            cursor_at: self.cursor_at,
            replace_mode: self.replace_mode,
            user_input: self.user_input@,
        }
    }
}

impl CalculatorView {
    /// The cursor stands in the input line or at its end, a token is
    /// inserted rather than overwritten, and an open menu shows one of its
    /// pages.
    pub open spec fn wf(self) -> bool {
        &&& self.cursor_at <= self.user_input.len()
        &&& !self.replace_mode
        &&& match self.menu {
            Some((menu, page)) => page < menu.page_count(),
            None => true,
        }
    }

    /// The state with another modifier.
    pub open spec fn with_modifier(self, modifier_key: Option<KeyModifier>) -> CalculatorView {
        CalculatorView { modifier_key, ..self }
    }

    /// The state with another menu.
    pub open spec fn with_menu(self, menu: Option<(Menu, usize)>) -> CalculatorView {
        CalculatorView { menu, ..self }
    }

    /// The state with the cursor at another place.
    pub open spec fn with_cursor(self, cursor_at: usize) -> CalculatorView {
        CalculatorView { cursor_at, ..self }
    }

    /// The state after a token was entered at the cursor. The modifier is
    /// used up.
    pub open spec fn entered(self, token: Token) -> CalculatorView {
        if self.replace_mode {
            CalculatorView {
                user_input: self.user_input.update(self.cursor_at as int, token),
                modifier_key: None,
                ..self
            }
        } else {
            CalculatorView {
                user_input: self.user_input.insert(self.cursor_at as int, token),
                cursor_at: (self.cursor_at + 1) as usize,
                modifier_key: None,
                ..self
            }
        }
    }

    /// The state after the delete key: the cursor steps back, and the token
    /// that it then stands in front of leaves the line.
    pub open spec fn deleted(self) -> CalculatorView {
        let cursor_at = if self.cursor_at == 0 {
            0usize
        } else {
            (self.cursor_at - 1) as usize
        };
        if self.user_input.len() > 0 {
            CalculatorView {
                cursor_at,
                user_input: self.user_input.remove(cursor_at as int),
                ..self
            }
        } else {
            CalculatorView { cursor_at, ..self }
        }
    }

    /// The state after a mode was chosen from the menu: the input line is
    /// empty and the menu is closed.
    pub open spec fn chosen(self, mode: Mode) -> CalculatorView {
        CalculatorView { mode, user_input: Seq::empty(), cursor_at: 0, menu: None, ..self }
    }
}

/// Whether the modifier holds the shift key.
pub open spec fn holds_shift(modifier: Option<KeyModifier>) -> bool {
    modifier == Some(KeyModifier::Shift) || modifier == Some(KeyModifier::ShiftHyp)
}

/// The menu after the mode key: it opens, turns to its second page, and
/// closes.
pub open spec fn menu_after_mode_key(menu: Option<(Menu, usize)>) -> Option<(Menu, usize)> {
    match menu {
        None => Some((Menu::ModeSelect, 0)),
        Some((Menu::ModeSelect, page)) => if page == 0 {
            Some((Menu::ModeSelect, 1))
        } else if page == 1 {
            None
        } else {
            menu
        },
    }
}

/// The modifier after the shift key.
pub open spec fn modifier_after_shift(modifier: Option<KeyModifier>) -> Option<KeyModifier> {
    match modifier {
        Some(KeyModifier::Shift) => None,
        Some(KeyModifier::Hyp) => Some(KeyModifier::ShiftHyp),
        Some(KeyModifier::ShiftHyp) => Some(KeyModifier::Hyp),
        _ => Some(KeyModifier::Shift),
    }
}

/// The modifier after the hyp key.
pub open spec fn modifier_after_hyp(modifier: Option<KeyModifier>) -> Option<KeyModifier> {
    match modifier {
        Some(KeyModifier::Hyp) => None,
        Some(KeyModifier::Shift) => Some(KeyModifier::ShiftHyp),
        Some(KeyModifier::ShiftHyp) => Some(KeyModifier::Shift),
        _ => Some(KeyModifier::Hyp),
    }
}

/// The modifier after the alpha key.
pub open spec fn modifier_after_alpha(modifier: Option<KeyModifier>) -> Option<KeyModifier> {
    match modifier {
        Some(KeyModifier::Alpha) => None,
        _ => Some(KeyModifier::Alpha),
    }
}

/// The modifier after the recall key.
pub open spec fn modifier_after_rcl(modifier: Option<KeyModifier>) -> Option<KeyModifier> {
    match modifier {
        Some(KeyModifier::Shift) => Some(KeyModifier::Sto),
        Some(KeyModifier::Rcl) => None,
        _ => Some(KeyModifier::Rcl),
    }
}

/// The token that a key enters under a modifier, if it enters one.
pub open spec fn token_for(modifier: Option<KeyModifier>, key: Key) -> Option<Token> {
    if modifier is None {
        match key {
            Key::Power => Some(Token::Power),
            Key::SquareRoot => Some(Token::SquareRoot),
            Key::Fraction => Some(Token::Fraction),
            Key::_0 => Some(Token::_0),
            Key::_1 => Some(Token::_1),
            Key::_2 => Some(Token::_2),
            Key::_3 => Some(Token::_3),
            Key::_4 => Some(Token::_4),
            Key::_5 => Some(Token::_5),
            Key::_6 => Some(Token::_6),
            Key::_7 => Some(Token::_7),
            Key::_8 => Some(Token::_8),
            Key::_9 => Some(Token::_9),
            Key::Add => Some(Token::Add),
            Key::Subtract => Some(Token::Subtract),
            Key::Multiply => Some(Token::Multiply),
            Key::Divide => Some(Token::Divide),
            Key::Negative => Some(Token::Negative),
            _ => None,
        }
    } else if holds_shift(modifier) {
        match key {
            Key::Ln => Some(Token::EPower),
            Key::Log => Some(Token::_10Power),
            _ => None,
        }
    } else if modifier == Some(KeyModifier::Alpha) {
        match key {
            Key::Ln => Some(Token::E),
            _ => None,
        }
    } else {
        None
    }
}

/// The mode that a key chooses from the mode menu, if it chooses one.
pub open spec fn mode_for(key: Key) -> Option<Mode> {
    match key {
        Key::_1 => Some(Mode::Computation),
        Key::_2 => Some(Mode::Complex),
        Key::_3 => Some(Mode::Base(Base::Decimal)),
        Key::_4 => Some(Mode::SingleStat),
        Key::_5 => Some(Mode::PairedStat),
        Key::_6 => Some(Mode::Program),
        _ => None,
    }
}

/// What a key without modifier does while a menu is open: a digit of the
/// menu chooses its mode and closes the menu, the clear key closes the menu,
/// any other key does nothing.
pub open spec fn menu_choice(s: CalculatorView, key: Key) -> CalculatorView {
    match mode_for(key) {
        Some(mode) => s.chosen(mode),
        None => if key == Key::Ac {
            s.with_menu(None)
        } else {
            s
        },
    }
}

/// What a key other than the mode key and the modifier keys does while the
/// menu `menu` is open on page `page`.
pub open spec fn tick_in_menu(
    s: CalculatorView,
    key: Key,
    menu: Menu,
    page: usize,
) -> CalculatorView {
    match key {
        Key::Left => s.with_menu(
            Some(
                (
                    menu,
                    if page == 0 {
                        (menu.page_count() - 1) as usize
                    } else {
                        (page - 1) as usize
                    },
                ),
            ),
        ),
        Key::Right => s.with_menu(Some((menu, ((page + 1) % (menu.page_count() as int)) as usize))),
        _ => if s.modifier_key is None {
            menu_choice(s, key)
        } else {
            s.with_modifier(None)
        },
    }
}

/// What a key other than the mode key and the modifier keys does to the
/// input line.
pub open spec fn tick_in_line(s: CalculatorView, key: Key) -> CalculatorView {
    match key {
        Key::Left => s.with_cursor(
            if s.cursor_at == 0 {
                0usize
            } else {
                (s.cursor_at - 1) as usize
            },
        ),
        Key::Right => s.with_cursor(
            if s.cursor_at + 1 <= s.user_input.len() {
                (s.cursor_at + 1) as usize
            } else {
                s.user_input.len() as usize
            },
        ),
        Key::Up => s.with_cursor(0),
        Key::Down => s.with_cursor(s.user_input.len() as usize),
        _ => match token_for(s.modifier_key, key) {
            Some(token) => s.entered(token),
            None => if s.modifier_key is None && key == Key::Del {
                s.deleted()
            } else {
                s.with_modifier(None)
            },
        },
    }
}

/// The state after one round with the pending key.
pub open spec fn tick_of(s: CalculatorView) -> CalculatorView {
    match s.pending_key {
        None => s,
        Some(key) => match key {
            Key::Mode => if holds_shift(s.modifier_key) {
                s.with_modifier(None)
            } else {
                s.with_menu(menu_after_mode_key(s.menu))
            },
            Key::Shift => s.with_modifier(modifier_after_shift(s.modifier_key)),
            Key::Hyp => s.with_modifier(modifier_after_hyp(s.modifier_key)),
            Key::Alpha => s.with_modifier(modifier_after_alpha(s.modifier_key)),
            Key::Rcl => s.with_modifier(modifier_after_rcl(s.modifier_key)),
            _ => match s.menu {
                Some((menu, page)) => tick_in_menu(s, key, menu, page),
                None => tick_in_line(s, key),
            },
        },
    }
}

impl Calculator {
    /// A calculator in computation mode with an empty input line.
    pub fn new() -> (c: Calculator)
        ensures
            c@.wf(),
            c@ == (CalculatorView {
                mode: Mode::Computation,
                menu: None,
                pending_key: None,
                modifier_key: None,
                cursor_at: 0,
                replace_mode: false,
                user_input: Seq::empty(),
            }),
    {
        Calculator {
            mode: Mode::Computation,
            menu: None,
            pending_key: None,
            modifier_key: None,
            cursor_at: 0,
            replace_mode: false,
            user_input: Vec::with_capacity(99),
        }
    }

    /// Takes the event of the keyboard for this round: the key that it
    /// presses becomes the pending key, and without such a key none is
    /// pending.
    pub fn pretick(&mut self, stroke: Option<Keystroke>)
        ensures
            final(self)@ == (CalculatorView { pending_key: key_of(stroke), ..old(self)@ }),
    {
        self.pending_key = key_for(stroke);
    }

    /// Enters a token at the cursor.
    fn insert(&mut self, t: Token)
        requires
            old(self)@.wf(),
        ensures
            final(self)@.wf(),
            final(self)@ == old(self)@.entered(t),
    {
        if !self.replace_mode {
            self.user_input.insert(self.cursor_at, t);
            assert(self.user_input.len() <= usize::MAX);
            self.cursor_at += 1;
        } else {
            self.user_input.set(self.cursor_at, t);
        }
        self.modifier_key = None;
    }

    /// Lets the pending key act on the open menu.
    ///
    /// A menu is open and a key is pending.
    pub fn on_menu_interaction(&mut self)
        requires
            old(self)@.menu is Some,
            old(self)@.pending_key is Some,
        ensures
            final(self)@ == menu_choice(old(self)@, old(self)@.pending_key.unwrap()),
            old(self)@.wf() ==> final(self)@.wf(),
    {
        let key = self.pending_key.unwrap();
        let mode = match key {
            Key::_1 => Mode::Computation,
            Key::_2 => Mode::Complex,
            Key::_3 => Mode::Base(Base::Decimal),
            Key::_4 => Mode::SingleStat,
            Key::_5 => Mode::PairedStat,
            Key::_6 => Mode::Program,
            Key::Ac => {
                self.menu = None;
                return ;
            },
            _ => {
                return ;
            },
        };
        self.mode = mode;
        self.user_input.clear();
        self.cursor_at = 0;
        self.menu = None;
    }

    /// Lets the pending key act on the state.
    ///
    /// The mode key opens the mode menu, turns its page and closes it; after
    /// shift it only uses up the modifier. Shift, hyp, alpha and recall
    /// change the modifier. The arrows turn the pages of an open menu, or
    /// else move the cursor. Any other key chooses from an open menu, or
    /// else enters its token at the cursor or deletes at the cursor; a key
    /// that does neither under the present modifier uses up the modifier.
    pub fn tick(&mut self)
        requires
            old(self)@.wf(),
        ensures
            final(self)@.wf(),
            final(self)@ == tick_of(old(self)@),
    {
        let modifier = self.modifier_key;
        let key = self.pending_key;
        let menu = self.menu;
        match (modifier, key, menu) {
            (Some(KeyModifier::Shift | KeyModifier::ShiftHyp), Some(Key::Mode), None) => {
                self.modifier_key = None
            },
            (Some(KeyModifier::Shift | KeyModifier::ShiftHyp), Some(Key::Mode), Some(_)) => {
                self.modifier_key = None
            },
            (_, Some(Key::Mode), menu) => {
                self.menu = match menu {
                    None => Some((Menu::ModeSelect, 0)),
                    Some((Menu::ModeSelect, 0)) => Some((Menu::ModeSelect, 1)),
                    Some((Menu::ModeSelect, 1)) => None,
                    _ => {
                        return ;
                    },
                }
            },
            (Some(KeyModifier::Shift), Some(Key::Shift), _) => self.modifier_key = None,
            (Some(KeyModifier::Hyp), Some(Key::Shift), _) => {
                self.modifier_key = Some(KeyModifier::ShiftHyp)
            },
            (Some(KeyModifier::ShiftHyp), Some(Key::Shift), _) => {
                self.modifier_key = Some(KeyModifier::Hyp)
            },
            (_, Some(Key::Shift), _) => self.modifier_key = Some(KeyModifier::Shift),
            (Some(KeyModifier::Hyp), Some(Key::Hyp), _) => self.modifier_key = None,
            (Some(KeyModifier::Shift), Some(Key::Hyp), _) => {
                self.modifier_key = Some(KeyModifier::ShiftHyp)
            },
            (Some(KeyModifier::ShiftHyp), Some(Key::Hyp), _) => {
                self.modifier_key = Some(KeyModifier::Shift)
            },
            (_, Some(Key::Hyp), _) => self.modifier_key = Some(KeyModifier::Hyp),
            (Some(KeyModifier::Alpha), Some(Key::Alpha), _) => self.modifier_key = None,
            (_, Some(Key::Alpha), _) => self.modifier_key = Some(KeyModifier::Alpha),
            (Some(KeyModifier::Shift), Some(Key::Rcl), _) => {
                self.modifier_key = Some(KeyModifier::Sto)
            },
            (Some(KeyModifier::Rcl), Some(Key::Rcl), _) => self.modifier_key = None,
            (_, Some(Key::Rcl), _) => self.modifier_key = Some(KeyModifier::Rcl),
            (_, Some(Key::Left), Some((menu, page))) => {
                let turned = match page.checked_sub(1) {
                    Some(p) => p,
                    None => menu.pages() - 1,
                };
                self.menu = Some((menu, turned))
            },
            (_, Some(Key::Right), Some((menu, page))) => {
                self.menu = Some((menu, (page + 1) % menu.pages()))
            },
            (_, Some(Key::Left), None) => self.cursor_at = self.cursor_at.saturating_sub(1),
            (_, Some(Key::Right), None) => {
                let len = self.user_input.len();
                self.cursor_at = if self.cursor_at < len {
                    self.cursor_at + 1
                } else {
                    len
                }
            },
            (_, Some(Key::Up), None) => self.cursor_at = 0,
            (_, Some(Key::Down), None) => self.cursor_at = self.user_input.len(),
            (None, Some(_), Some(_)) => self.on_menu_interaction(),
            (None, Some(Key::Power), None) => self.insert(Token::Power),
            (None, Some(Key::SquareRoot), None) => self.insert(Token::SquareRoot),
            (Some(KeyModifier::Shift | KeyModifier::ShiftHyp), Some(Key::Ln), None) => {
                self.insert(Token::EPower)
            },
            (Some(KeyModifier::Alpha), Some(Key::Ln), None) => self.insert(Token::E),
            (None, Some(Key::Fraction), None) => self.insert(Token::Fraction),
            (None, Some(Key::_0), None) => self.insert(Token::_0),
            (None, Some(Key::_1), None) => self.insert(Token::_1),
            (None, Some(Key::_2), None) => self.insert(Token::_2),
            (None, Some(Key::_3), None) => self.insert(Token::_3),
            (None, Some(Key::_4), None) => self.insert(Token::_4),
            (None, Some(Key::_5), None) => self.insert(Token::_5),
            (None, Some(Key::_6), None) => self.insert(Token::_6),
            (None, Some(Key::_7), None) => self.insert(Token::_7),
            (None, Some(Key::_8), None) => self.insert(Token::_8),
            (None, Some(Key::_9), None) => self.insert(Token::_9),
            (None, Some(Key::Add), None) => self.insert(Token::Add),
            (None, Some(Key::Subtract), None) => self.insert(Token::Subtract),
            (None, Some(Key::Multiply), None) => self.insert(Token::Multiply),
            (None, Some(Key::Divide), None) => self.insert(Token::Divide),
            (None, Some(Key::Negative), None) => self.insert(Token::Negative),
            (Some(KeyModifier::Shift | KeyModifier::ShiftHyp), Some(Key::Log), None) => {
                self.insert(Token::_10Power)
            },
            (None, Some(Key::Del), None) => {
                self.cursor_at = self.cursor_at.saturating_sub(1);
                if self.user_input.len() > 0 {
                    self.user_input.remove(self.cursor_at);
                }
            },
            (_, Some(_), _) => self.modifier_key = None,
            (_, None, _) => (),
        }
    }

    /// What the calculator shows: the status line, the line of blocks, the
    /// bottom line, and the cursor where there is one.
    ///
    /// The width of the input line fits in `usize`.
    pub fn get_display(&self) -> (r: (String, Vec<DisplayBlock>, String, Option<(usize, bool)>))
        requires
            self@.wf(),
            self@.menu is None ==> blocks_width(line_blocks(self@.user_input)) <= usize::MAX,
        ensures
            r.0@ == status_line(self@),
            blocks_view(r.1@) == top_line(self@),
            r.2@ == bottom_line(self@),
            r.3 == cursor_of(self@),
    {
        let mut stat = String::new();
        let mut top: Vec<DisplayBlock> = Vec::new();
        let mut bot = String::new();
        let mut cursor: Option<(usize, bool)> = None;

        stat.append(
            match &self.modifier_key {
                Some(modifier) => modifier.status_name(),
                None => "      ",
            },
        );
        stat.append(" ");
        stat.append(self.mode.status_name());
        stat.append(" r∠θR⇔I ");
        match &self.pending_key {
            None => stat.append("None"),
            Some(key) => {
                stat.append("Some(");
                stat.append(key.name());
                stat.append(")");
            },
        }
        proof {
            assert(stat@ =~= status_line(self@));
        }

        match self.menu {
            Some((menu, page)) => {
                let (items, fill) = menu.get_page(page);
                let items_len = items.len();
                let scroll_arrows = menu.pages() > 1;
                let ghost all = menu.page_items(page);
                let ghost gap = 16nat / all.len();
                proof {
                    assert(all.len() == 3);
                    assert(all.take(0) =~= Seq::<MenuItemView>::empty());
                }
                top.push(
                    DisplayBlock::new(
                        if scroll_arrows {
                            "←"
                        } else {
                            " "
                        },
                        false,
                        false,
                    ),
                );
                bot.append("  ");
                let ghost top_head = blocks_view(top@);
                let ghost bot_head = bot@;
                let mut i: usize = 0;
                while i < items_len
                    invariant
                        i <= items_len,
                        items_len == items@.len(),
                        items_len > 0,
                        all == items_view(items@),
                        gap == 16nat / all.len(),
                        blocks_view(top@) == top_head + item_blocks(all.take(i as int)),
                        bot@ == bot_head + item_digits(all.take(i as int), gap),
                    decreases items_len - i,
                {
                    let item = items[i];
                    let ghost top_before = blocks_view(top@);
                    let ghost bot_before = bot@;
                    top.push(DisplayBlock { text: spaces(item.2), bold: false, italic: false });
                    top.push(DisplayBlock::new(item.0, false, false));
                    bot.append(number_text(item.1).as_str());
                    bot.append(spaces(16 / items_len).as_str());
                    proof {
                        assert(all.take(i + 1).drop_last() =~= all.take(i as int));
                        assert(all.take(i + 1).last() == item_view(item));
                        assert(blocks_view(top@) =~= top_before + seq![
                            plain(blanks(item.2 as nat)),
                            plain(item.0@),
                        ]);
                        assert(blocks_view(top@) =~= top_head + item_blocks(all.take(i + 1)));
                        assert(bot@ =~= bot_head + item_digits(all.take(i + 1), gap));
                    }
                    i = i + 1;
                }
                let ghost top_items = blocks_view(top@);
                top.push(DisplayBlock { text: spaces(fill), bold: false, italic: false });
                bot.append(spaces(fill).as_str());
                top.push(
                    DisplayBlock::new(
                        if scroll_arrows {
                            "→"
                        } else {
                            " "
                        },
                        false,
                        false,
                    ),
                );
                proof {
                    assert(all.take(items_len as int) =~= all);
                    assert(blocks_view(top@) =~= top_items + seq![
                        plain(blanks(fill as nat)),
                        page_mark(menu, "→"@),
                    ]);
                    assert(top_head =~= seq![page_mark(menu, "←"@)]);
                    assert(blocks_view(top@) =~= menu_top(menu, page));
                    assert(bot@ =~= menu_bottom(menu, page));
                }
            },
            None => {
                top.push(DisplayBlock::new(" ", false, false));
                let ghost tokens = self.user_input@;
                let ghost top_head = blocks_view(top@);
                let mut cursor_acc: usize = 0;
                let mut cursor_position: usize = 0;
                let mut i: usize = 0;
                proof {
                    assert(tokens.take(0) =~= Seq::<Token>::empty());
                }
                while i < self.user_input.len()
                    invariant
                        i <= self.user_input.len(),
                        tokens == self.user_input@,
                        self.cursor_at <= tokens.len(),
                        blocks_width(line_blocks(tokens)) <= usize::MAX,
                        blocks_view(top@) == top_head + line_blocks(tokens.take(i as int)),
                        cursor_acc == blocks_width(line_blocks(tokens.take(i as int))),
                        cursor_position == if self.cursor_at <= i {
                            blocks_width(line_blocks(tokens.take(self.cursor_at as int)))
                        } else {
                            0
                        },
                    decreases self.user_input.len() - i,
                {
                    let mut blocks = self.user_input[i].as_display_block();
                    let ghost top_before = blocks_view(top@);
                    proof {
                        assert(tokens.take(i + 1).drop_last() =~= tokens.take(i as int));
                        lemma_width_concat(
                            line_blocks(tokens.take(i as int)),
                            tokens[i as int].blocks(),
                        );
                        lemma_line_width_monotone(tokens, i + 1, tokens.len() as int);
                        assert(tokens.take(tokens.len() as int) =~= tokens);
                    }
                    cursor_acc = width_from(cursor_acc, &blocks);
                    let ghost added = blocks_view(blocks@);
                    top.append(&mut blocks);
                    proof {
                        assert(blocks_view(top@) =~= top_before + added);
                        assert(blocks_view(top@) =~= top_head + line_blocks(tokens.take(i + 1)));
                    }
                    if self.cursor_at == i + 1 {
                        cursor_position = cursor_acc
                    }
                    i = i + 1;
                }
                bot.append("            todo!");
                cursor = Some((cursor_position, self.replace_mode));
                proof {
                    assert(tokens.take(tokens.len() as int) =~= tokens);
                    assert(top_head =~= seq![plain(" "@)]);
                    assert(bot@ =~= bottom_line(self@));
                }
            },
        }

        (stat, top, bot, cursor)
    }

    /// What the calculator computes with.
    pub fn mode(&self) -> (mode: Mode)
        ensures
            mode == self@.mode,
    {
        self.mode
    }

    /// The open menu and its page, if a menu is open.
    pub fn menu(&self) -> (menu: Option<(Menu, usize)>)
        ensures
            menu == self@.menu,
    {
        self.menu
    }

    /// The key pressed in this round, if any.
    pub fn pending_key(&self) -> (key: Option<Key>)
        ensures
            key == self@.pending_key,
    {
        self.pending_key
    }

    /// What the modifier keys pressed so far add up to.
    pub fn modifier_key(&self) -> (modifier: Option<KeyModifier>)
        ensures
            modifier == self@.modifier_key,
    {
        self.modifier_key
    }

    /// The place in the input line in front of which the cursor stands.
    pub fn cursor_at(&self) -> (cursor: usize)
        ensures
            cursor == self@.cursor_at,
    {
        self.cursor_at
    }

    /// The input line.
    pub fn user_input(&self) -> (tokens: &Vec<Token>)
        ensures
            tokens@ == self@.user_input,
    {
        &self.user_input
    }
}

} // verus!
