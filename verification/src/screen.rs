//! What the calculator shows: a status line, a line of styled blocks, a
//! bottom line, and the cursor.

use crate::calculator::CalculatorView;
use crate::display::{blanks, blocks_width, plain, DisplayBlockView};
use crate::keys::Key;
use crate::mode::{Menu, MenuItemView};
use crate::text::nat_text;
use crate::token::Token;
use vstd::prelude::*;

verus! {

/// The pending key as the status line writes it.
pub open spec fn pending_text(key: Option<Key>) -> Seq<char> {
    match key {
        None => "None"@,
        Some(key) => "Some("@ + key.name_text() + ")"@,
    }
}

/// The status line: the modifier, the mode, the fixed angle and complex
/// marks, and the pending key.
pub open spec fn status_line(s: CalculatorView) -> Seq<char> {
    (match s.modifier_key {
        Some(modifier) => modifier.status_text(),
        None => "      "@,
    }) + " "@ + s.mode.status_text() + " r∠θR⇔I "@ + pending_text(s.pending_key)
}

/// The labels of a menu page, each after its blanks.
pub open spec fn item_blocks(items: Seq<MenuItemView>) -> Seq<DisplayBlockView>
    decreases items.len(),
{
    if items.len() == 0 {
        Seq::empty()
    } else {
        item_blocks(items.drop_last()) + seq![
            plain(blanks(items.last().2 as nat)),
            plain(items.last().0),
        ]
    }
}

/// The digits that select the entries of a menu page, each followed by
/// `gap` blanks.
pub open spec fn item_digits(items: Seq<MenuItemView>, gap: nat) -> Seq<char>
    decreases items.len(),
{
    if items.len() == 0 {
        Seq::empty()
    } else {
        item_digits(items.drop_last(), gap) + nat_text(items.last().1 as nat) + blanks(gap)
    }
}

/// The mark at the left or right end of a menu line: an arrow if the menu
/// has more than one page.
pub open spec fn page_mark(menu: Menu, arrow: Seq<char>) -> DisplayBlockView {
    plain(
        if menu.page_count() > 1 {
            arrow
        } else {
            " "@
        },
    )
}

/// The line of blocks of an open menu.
pub open spec fn menu_top(menu: Menu, page: usize) -> Seq<DisplayBlockView> {
    seq![page_mark(menu, "←"@)] + item_blocks(menu.page_items(page)) + seq![
        plain(blanks(menu.page_fill(page) as nat)),
        page_mark(menu, "→"@),
    ]
}

/// The bottom line of an open menu: the digits that select the entries,
/// sixteen columns shared out between them.
pub open spec fn menu_bottom(menu: Menu, page: usize) -> Seq<char> {
    let items = menu.page_items(page);
    "  "@ + item_digits(items, 16nat / items.len()) + blanks(menu.page_fill(page) as nat)
}

/// The blocks of the tokens of an input line, in order.
pub open spec fn line_blocks(tokens: Seq<Token>) -> Seq<DisplayBlockView>
    decreases tokens.len(),
{
    if tokens.len() == 0 {
        Seq::empty()
    } else {
        line_blocks(tokens.drop_last()) + tokens.last().blocks()
    }
}

/// The column of the cursor: the width of the tokens in front of it.
pub open spec fn cursor_column(s: CalculatorView) -> nat {
    blocks_width(line_blocks(s.user_input.take(s.cursor_at as int)))
}

/// The line of blocks: that of the open menu, or else a blank and the input
/// line.
pub open spec fn top_line(s: CalculatorView) -> Seq<DisplayBlockView> {
    match s.menu {
        Some((menu, page)) => menu_top(menu, page),
        None => seq![plain(" "@)] + line_blocks(s.user_input),
    }
}

/// The bottom line: that of the open menu, or else a fixed text.
pub open spec fn bottom_line(s: CalculatorView) -> Seq<char> {
    match s.menu {
        Some((menu, page)) => menu_bottom(menu, page),
        None => "            todo!"@,
    }
}

/// The cursor: none while a menu is open, or else its column and whether
/// it overwrites.
pub open spec fn cursor_of(s: CalculatorView) -> Option<(usize, bool)> {
    match s.menu {
        Some(_) => None,
        None => Some((cursor_column(s) as usize, s.replace_mode)),
    }
}

/// The width of two runs of blocks is the sum of their widths.
pub proof fn lemma_width_concat(a: Seq<DisplayBlockView>, b: Seq<DisplayBlockView>)
    ensures
        blocks_width(a + b) == blocks_width(a) + blocks_width(b),
    decreases b.len(),
{
    if b.len() == 0 {
        assert(a + b =~= a);
    } else {
        lemma_width_concat(a, b.drop_last());
        assert((a + b).drop_last() =~= a + b.drop_last());
    }
}

/// The input line up to a place is no wider than the line up to a later
/// place.
pub proof fn lemma_line_width_monotone(tokens: Seq<Token>, i: int, j: int)
    requires
        0 <= i <= j <= tokens.len(),
    ensures
        blocks_width(line_blocks(tokens.take(i))) <= blocks_width(line_blocks(tokens.take(j))),
    decreases j - i,
{
    if i < j {
        lemma_line_width_monotone(tokens, i, j - 1);
        assert(tokens.take(j).drop_last() =~= tokens.take(j - 1));
        lemma_width_concat(line_blocks(tokens.take(j - 1)), tokens[j - 1].blocks());
    }
}

/// No token is wider than four characters, so an input line is at most
/// four times as wide as it has tokens.
pub proof fn lemma_line_width_bound(tokens: Seq<Token>)
    ensures
        blocks_width(line_blocks(tokens)) <= 4 * tokens.len(),
    decreases tokens.len(),
{
    if tokens.len() > 0 {
        let last = tokens.last().blocks();
        lemma_line_width_bound(tokens.drop_last());
        lemma_width_concat(line_blocks(tokens.drop_last()), last);
        assert(blocks_width(last) <= 4) by {
            reveal_strlit("^(");
            reveal_strlit("√(");
            reveal_strlit("e");
            reveal_strlit("⅃");
            reveal_strlit("0");
            reveal_strlit("1");
            reveal_strlit("2");
            reveal_strlit("3");
            reveal_strlit("4");
            reveal_strlit("5");
            reveal_strlit("6");
            reveal_strlit("7");
            reveal_strlit("8");
            reveal_strlit("9");
            reveal_strlit("+");
            reveal_strlit("–");
            reveal_strlit("×");
            reveal_strlit("÷");
            reveal_strlit("╶");
            reveal_strlit("₁₀^(");
            reveal_with_fuel(blocks_width, 3);
            assert(last.len() <= 2);
            if last.len() == 2 {
                assert(last.drop_last().drop_last() =~= Seq::<DisplayBlockView>::empty());
            } else {
                assert(last.drop_last() =~= Seq::<DisplayBlockView>::empty());
            }
        }
    }
}

} // verus!
