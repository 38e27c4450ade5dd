//! Pieces of display text and the helpers that build them.

use vstd::prelude::*;
use vstd::string::*;

verus! {

/// A run of display text with its style.
pub struct DisplayBlock {
    pub text: String,
    pub bold: bool,
    pub italic: bool,
}

/// A display block as contracts see it.
pub struct DisplayBlockView {
    pub text: Seq<char>,
    pub bold: bool,
    pub italic: bool,
}

impl View for DisplayBlock {
    type V = DisplayBlockView;

    open spec fn view(&self) -> DisplayBlockView {
        DisplayBlockView { text: self.text@, bold: self.bold, italic: self.italic }
    }
}

/// The views of a run of blocks.
pub open spec fn blocks_view(blocks: Seq<DisplayBlock>) -> Seq<DisplayBlockView> {
    blocks.map_values(|b: DisplayBlock| b@)
}

/// A block of text without any style.
pub open spec fn plain(text: Seq<char>) -> DisplayBlockView {
    DisplayBlockView { text, bold: false, italic: false }
}

/// A block of text with the given style.
pub open spec fn styled(text: Seq<char>, bold: bool, italic: bool) -> DisplayBlockView {
    DisplayBlockView { text, bold, italic }
}

/// The number of characters in a run of blocks.
pub open spec fn blocks_width(blocks: Seq<DisplayBlockView>) -> nat
    decreases blocks.len(),
{
    if blocks.len() == 0 {
        0
    } else {
        blocks_width(blocks.drop_last()) + blocks.last().text.len()
    }
}

/// A run of `n` blanks.
pub open spec fn blanks(n: nat) -> Seq<char> {
    Seq::new(n, |i: int| ' ')
}

impl DisplayBlock {
    /// A block of the given text and style.
    pub fn new(text: &str, bold: bool, italic: bool) -> (b: DisplayBlock)
        ensures
            b@ == styled(text@, bold, italic),
    {
        DisplayBlock { text: String::from_str(text), bold, italic }
    }
}

/// A text of `n` blanks.
pub fn spaces(n: usize) -> (s: String)
    ensures
        s@ == blanks(n as nat),
{
    let mut s = String::new();
    let mut i: usize = 0;
    proof {
        reveal_strlit(" ");
        assert(s@ =~= blanks(0));
    }
    while i < n
        invariant
            i <= n,
            s@ == blanks(i as nat),
            " "@ == seq![' '],
        decreases n - i,
    {
        s.append(" ");
        i = i + 1;
        proof {
            assert(s@ =~= blanks(i as nat));
        }
    }
    s
}

/// The width of a run of blocks and of one more block is the sum of the two.
pub proof fn lemma_width_push(blocks: Seq<DisplayBlockView>, b: DisplayBlockView)
    ensures
        blocks_width(blocks.push(b)) == blocks_width(blocks) + b.text.len(),
{
    assert(blocks.push(b).drop_last() =~= blocks);
}

/// Counts the characters in a run of blocks, on top of `start`.
pub fn width_from(start: usize, blocks: &Vec<DisplayBlock>) -> (width: usize)
    requires
        start + blocks_width(blocks_view(blocks@)) <= usize::MAX,
    ensures
        width == start + blocks_width(blocks_view(blocks@)),
{
    let mut width = start;
    let mut i: usize = 0;
    let ghost all = blocks_view(blocks@);
    proof {
        assert(all.take(0) =~= Seq::<DisplayBlockView>::empty());
    }
    while i < blocks.len()
        invariant
            i <= blocks.len(),
            all == blocks_view(blocks@),
            width == start + blocks_width(all.take(i as int)),
            start + blocks_width(all) <= usize::MAX,
        decreases blocks.len() - i,
    {
        proof {
            assert(all.take(i + 1) =~= all.take(i as int).push(all[i as int]));
            lemma_width_push(all.take(i as int), all[i as int]);
            lemma_width_prefix(all, i + 1);
        }
        width = width + blocks[i].text.as_str().unicode_len();
        i = i + 1;
    }
    proof {
        assert(all.take(blocks.len() as int) =~= all);
    }
    width
}

/// A run of blocks is at least as wide as each of its beginnings.
pub proof fn lemma_width_prefix(blocks: Seq<DisplayBlockView>, i: int)
    requires
        0 <= i <= blocks.len(),
    ensures
        blocks_width(blocks.take(i)) <= blocks_width(blocks),
    decreases blocks.len() - i,
{
    if i < blocks.len() {
        lemma_width_prefix(blocks, i + 1);
        assert(blocks.take(i + 1) =~= blocks.take(i).push(blocks[i]));
        lemma_width_push(blocks.take(i), blocks[i]);
    } else {
        assert(blocks.take(i) =~= blocks);
    }
}

} // verus!
