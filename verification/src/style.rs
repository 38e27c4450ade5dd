//! Display blocks as styled content of the terminal library `crossterm`.
//!
//! Nothing in this file but `as_styled` is proved: the type and the three
//! functions of `crossterm::style` are taken on trust, with what their
//! source shows of them.

use crate::display::DisplayBlock;
use crossterm::style::{StyledContent, Stylize};
use vstd::prelude::*;

verus! {

/// The place of `Attribute::Bold` among the attributes of `crossterm`.
pub const BOLD: u32 = 1;

/// The place of `Attribute::Italic` among the attributes of `crossterm`.
pub const ITALIC: u32 = 3;

/// `crossterm::style::StyledContent`: a content together with the colors and
/// attributes that it is printed with. Its fields are private.
#[verifier::external_type_specification]
#[verifier::external_body]
#[verifier::reject_recursive_types(D)]
pub struct ExStyledContent<D: core::fmt::Display>(crossterm::style::StyledContent<D>);

/// The text that a styled content holds: what `StyledContent::content`
/// hands out.
pub uninterp spec fn styled_text(c: StyledContent<String>) -> Seq<char>;

/// The attributes that the style of a styled content holds, each as its
/// place in the enum `Attribute`: those of which `Attributes::has` says yes.
pub uninterp spec fn styled_attributes(c: StyledContent<String>) -> Set<u32>;

/// The attributes of a block that is bold, italic, both or neither.
pub open spec fn emphasis(bold: bool, italic: bool) -> Set<u32> {
    let none = Set::<u32>::empty();
    let first = if bold {
        none.insert(BOLD)
    } else {
        none
    };
    if italic {
        first.insert(ITALIC)
    } else {
        first
    }
}

/// `crossterm::style::Stylize::stylize` on a `String`: the content is the
/// text, under the default style, which holds no attribute.
#[verifier::external_body]
fn stylize(text: String) -> (c: StyledContent<String>)
    ensures
        styled_text(c) == text@,
        styled_attributes(c) == Set::<u32>::empty(),
{
    text.stylize()
}

/// `crossterm::style::Stylize::bold` on styled content: adds
/// `Attribute::Bold` to the attributes and leaves the content and the other
/// attributes as they are.
#[verifier::external_body]
fn bold(c: StyledContent<String>) -> (r: StyledContent<String>)
    ensures
        styled_text(r) == styled_text(c),
        styled_attributes(r) == styled_attributes(c).insert(BOLD),
{
    c.bold()
}

/// `crossterm::style::Stylize::italic` on styled content: adds
/// `Attribute::Italic` to the attributes and leaves the content and the
/// other attributes as they are.
#[verifier::external_body]
fn italic(c: StyledContent<String>) -> (r: StyledContent<String>)
    ensures
        styled_text(r) == styled_text(c),
        styled_attributes(r) == styled_attributes(c).insert(ITALIC),
{
    c.italic()
}

impl DisplayBlock {
    /// The block as styled content: its text, with the attribute bold if
    /// the block is bold, the attribute italic if it is italic, and no
    /// other.
    pub fn as_styled(&self) -> (c: StyledContent<String>)
        ensures
            styled_text(c) == self.text@,
            styled_attributes(c) == emphasis(self.bold, self.italic),
    {
        let mut c = stylize(self.text.clone());
        if self.bold {
            c = bold(c);
        }
        if self.italic {
            c = italic(c);
        }
        c
    }
}

} // verus!
