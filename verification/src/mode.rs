//! The calculator's modes and the menu that selects one.

use vstd::prelude::*;

verus! {

/// The number base of the base-n mode.
#[derive(Debug, Clone, Copy, PartialEq, Eq, Structural)]
pub enum Base {
    Binary,
    Octal,
    Decimal,
    Hexadecimal,
}

/// What the calculator computes with.
#[derive(Debug, Clone, Copy, PartialEq, Eq, Structural)]
pub enum Mode {
    Computation,
    Complex,
    Base(Base),
    SingleStat,
    PairedStat,
    Program,
}

/// A menu that lies over the input line.
#[derive(Debug, Clone, Copy, PartialEq, Eq, Structural)]
pub enum Menu {
    ModeSelect,
}

/// An entry of a menu page: its label, the digit that selects it, and the
/// count of blanks in front of the label.
pub type MenuItem = (&'static str, usize, usize);

/// A menu entry as contracts see it.
pub type MenuItemView = (Seq<char>, usize, usize);

/// A menu entry as contracts see it.
pub open spec fn item_view(item: MenuItem) -> MenuItemView {
    (item.0@, item.1, item.2)
}

/// The entries of a menu page as contracts see them.
pub open spec fn items_view(items: Seq<MenuItem>) -> Seq<MenuItemView> {
    items.map_values(|item: MenuItem| item_view(item))
}

impl Mode {
    /// The six columns that show the mode in the status line.
    pub open spec fn status_text(&self) -> Seq<char> {
        match self {
            Mode::Computation => "      "@,
            Mode::Complex => "CMPLX "@,
            Mode::Base(Base::Binary) => "     b"@,
            Mode::Base(Base::Octal) => "     o"@,
            Mode::Base(Base::Decimal) => "     d"@,
            Mode::Base(Base::Hexadecimal) => "     h"@,
            Mode::SingleStat => "SD    "@,
            Mode::PairedStat => "REG   "@,
            Mode::Program => "PROG  "@,
        }
    }

    /// The mode as the status line shows it.
    pub fn status_name(&self) -> (name: &'static str)
        ensures
            name@ == self.status_text(),
            name@.len() == 6,
    {
        proof {
            reveal_strlit("      ");
            reveal_strlit("CMPLX ");
            reveal_strlit("     b");
            reveal_strlit("     o");
            reveal_strlit("     d");
            reveal_strlit("     h");
            reveal_strlit("SD    ");
            reveal_strlit("REG   ");
            reveal_strlit("PROG  ");
        }
        match self {
            Mode::Computation => "      ",
            Mode::Complex => "CMPLX ",
            Mode::Base(Base::Binary) => "     b",
            Mode::Base(Base::Octal) => "     o",
            Mode::Base(Base::Decimal) => "     d",
            Mode::Base(Base::Hexadecimal) => "     h",
            Mode::SingleStat => "SD    ",
            Mode::PairedStat => "REG   ",
            Mode::Program => "PROG  ",
        }
    }
}

impl Menu {
    /// The number of pages of the menu.
    pub open spec fn page_count(&self) -> usize {
        match self {
            Menu::ModeSelect => 2,
        }
    }

    /// The entries of a page.
    pub open spec fn page_items(&self, page: usize) -> Seq<MenuItemView> {
        match self {
            Menu::ModeSelect => if page == 0 {
                seq![
                    ("COMP"@, 1usize, 0usize),
                    ("CMPLX"@, 2usize, 1usize),
                    ("BASE"@, 3usize, 1usize),
                ]
            } else {
                seq![
                    ("SD"@, 4usize, 1usize),
                    ("REG"@, 5usize, 2usize),
                    ("PRGM"@, 6usize, 2usize),
                ]
            },
        }
    }

    /// The count of blanks that fills a page's line after its last entry.
    pub open spec fn page_fill(&self, page: usize) -> usize {
        match self {
            Menu::ModeSelect => if page == 0 {
                1
            } else {
                2
            },
        }
    }

    /// The number of pages of the menu.
    pub fn pages(&self) -> (n: usize)
        ensures
            n == self.page_count(),
            n > 0,
    {
        match self {
            Menu::ModeSelect => 2,
        }
    }

    /// The entries of a page of the menu, and the count of blanks that fills
    /// the line after the last of them. The page is one of the menu's.
    pub fn get_page(&self, page: usize) -> (r: (Vec<MenuItem>, usize))
        requires
            page < self.page_count(),
        ensures
            items_view(r.0@) == self.page_items(page),
            r.1 == self.page_fill(page),
    {
        let r: (Vec<MenuItem>, usize) = match (self, page) {
            (Menu::ModeSelect, 0) => (vec![("COMP", 1, 0), ("CMPLX", 2, 1), ("BASE", 3, 1)], 1),
            (Menu::ModeSelect, _) => (vec![("SD", 4, 1), ("REG", 5, 2), ("PRGM", 6, 2)], 2),
        };
        proof {
            assert(items_view(r.0@) =~= self.page_items(page));
        }
        r
    }
}

} // verus!
