use vstd::prelude::*;

use crate::cell::{Cell, StyleFlags};
use crate::page::{grid_row, Page, GRID_LEN};
use crate::region::{PAGE_HEIGHT, PAGE_WIDTH};

verus! {

/// ESC @ then SI: printer reset and condensed mode, sent once per document.
pub open spec fn init_bytes() -> Seq<u8> {
    seq![0x1Bu8, 0x40u8, 0x0Fu8]
}

/// ESC E.
pub open spec fn bold_on_bytes() -> Seq<u8> {
    seq![0x1Bu8, 0x45u8]
}

/// ESC F.
pub open spec fn bold_off_bytes() -> Seq<u8> {
    seq![0x1Bu8, 0x46u8]
}

/// ESC - 1.
pub open spec fn underline_on_bytes() -> Seq<u8> {
    seq![0x1Bu8, 0x2Du8, 0x01u8]
}

/// ESC - 0.
pub open spec fn underline_off_bytes() -> Seq<u8> {
    seq![0x1Bu8, 0x2Du8, 0x00u8]
}

/// Carriage return.
pub const CR: u8 = 0x0D;

/// Line feed.
pub const LF: u8 = 0x0A;

/// Form feed, the page separator.
pub const FF: u8 = 0x0C;

/// The codes that take the printer from style `from` to style `to`: a bold
/// code only when bold changes, then an underline code only when underline changes.
pub open spec fn transition(from: StyleFlags, to: StyleFlags) -> Seq<u8> {
    (if from.spec_bold() == to.spec_bold() {
        Seq::empty()
    } else if to.spec_bold() {
        bold_on_bytes()
    } else {
        bold_off_bytes()
    }) + (if from.spec_underline() == to.spec_underline() {
        Seq::empty()
    } else if to.spec_underline() {
        underline_on_bytes()
    } else {
        underline_off_bytes()
    })
}

/// The printer's style after the first `n` cells of a row.
pub open spec fn style_after(row: Seq<Cell>, n: int) -> StyleFlags {
    if n <= 0 {
        StyleFlags::NONE
    } else {
        row[n - 1].spec_style()
    }
}

/// The bytes for the first `n` cells of a row: per cell, its style codes then its byte.
pub open spec fn row_prefix_bytes(row: Seq<Cell>, n: nat) -> Seq<u8>
    decreases n,
{
    if n == 0 {
        Seq::empty()
    } else {
        row_prefix_bytes(row, (n - 1) as nat) + transition(
            style_after(row, n - 1),
            row[n - 1].spec_style(),
        ) + seq![row[n - 1].spec_byte()]
    }
}

/// The bytes for a row: its cells, CR LF, then codes that switch every active style off.
pub open spec fn row_bytes(row: Seq<Cell>) -> Seq<u8> {
    row_prefix_bytes(row, row.len()) + seq![CR, LF] + transition(
        style_after(row, row.len() as int),
        StyleFlags::NONE,
    )
}

/// The bytes for the first `n` rows of a grid.
pub open spec fn page_prefix_bytes(grid: Seq<Cell>, n: nat) -> Seq<u8>
    decreases n,
{
    if n == 0 {
        Seq::empty()
    } else {
        page_prefix_bytes(grid, (n - 1) as nat) + row_bytes(grid_row(grid, n - 1))
    }
}

/// The bytes for a page's 51 rows.
pub open spec fn page_bytes(grid: Seq<Cell>) -> Seq<u8> {
    page_prefix_bytes(grid, PAGE_HEIGHT as nat)
}

/// The bytes for a document made of the first `n` grids.
pub open spec fn document_prefix_bytes(grids: Seq<Seq<Cell>>, n: nat) -> Seq<u8>
    decreases n,
{
    if n == 0 {
        init_bytes()
    } else {
        document_prefix_bytes(grids, (n - 1) as nat) + page_bytes(grids[n - 1]) + seq![FF]
    }
}

/// The wire format of a document with the given page grids.
pub open spec fn document_bytes(grids: Seq<Seq<Cell>>) -> Seq<u8> {
    document_prefix_bytes(grids, grids.len())
}

/// How often `b` occurs in `s`.
pub open spec fn count_byte(s: Seq<u8>, b: u8) -> nat
    decreases s.len(),
{
    if s.len() == 0 {
        0
    } else {
        count_byte(s.drop_last(), b) + (if s.last() == b {
            1nat
        } else {
            0nat
        })
    }
}

/// Counting distributes over concatenation.
pub proof fn lemma_count_concat(s: Seq<u8>, t: Seq<u8>, b: u8)
    ensures
        count_byte(s + t, b) == count_byte(s, b) + count_byte(t, b),
    decreases t.len(),
{
    if t.len() == 0 {
        assert(s + t =~= s);
    } else {
        assert((s + t).drop_last() =~= s + t.drop_last());
        lemma_count_concat(s, t.drop_last(), b);
    }
}

/// A sequence with no `b` in it counts zero of them.
pub proof fn lemma_count_absent(s: Seq<u8>, b: u8)
    requires
        forall|i: int| 0 <= i < s.len() ==> s[i] != b,
    ensures
        count_byte(s, b) == 0,
    decreases s.len(),
{
    if s.len() > 0 {
        lemma_count_absent(s.drop_last(), b);
    }
}

/// The style the printer is in while a page is streamed.
pub struct RenderState {
    bold: bool,
    underline: bool,
}

impl RenderState {
    /// The active style.
    pub closed spec fn style(&self) -> StyleFlags {
        StyleFlags::from_flags(self.bold, self.underline)
    }

    /// No style active.
    pub fn new() -> (s: RenderState)
        ensures
            s.style() == StyleFlags::NONE,
    {
        RenderState { bold: false, underline: false }
    }

    /// Whether bold is active.
    pub fn bold(&self) -> (r: bool)
        ensures
            r == self.style().spec_bold(),
    {
        self.bold
    }

    /// Whether underline is active.
    pub fn underline(&self) -> (r: bool)
        ensures
            r == self.style().spec_underline(),
    {
        self.underline
    }

    /// Moves to `target`, emitting only the codes for flags that change.
    pub fn transition_to(&mut self, target: StyleFlags, output: &mut Vec<u8>)
        ensures
            final(self).style() == target,
            final(output)@ == old(output)@ + transition(old(self).style(), target),
    {
        let target_bold = target.bold();
        let target_underline = target.underline();
        if target_bold != self.bold {
            if target_bold {
                output.push(0x1B);
                output.push(0x45);
            } else {
                output.push(0x1B);
                output.push(0x46);
            }
            self.bold = target_bold;
        }
        if target_underline != self.underline {
            output.push(0x1B);
            output.push(0x2D);
            if target_underline {
                output.push(0x01);
            } else {
                output.push(0x00);
            }
            self.underline = target_underline;
        }
        assert(output@ =~= old(output)@ + transition(old(self).style(), target));
    }

    /// Switches every active style off, emitting the codes for those that were on.
    pub fn reset(&mut self, output: &mut Vec<u8>)
        ensures
            final(self).style() == StyleFlags::NONE,
            final(output)@ == old(output)@ + transition(old(self).style(), StyleFlags::NONE),
    {
        if self.bold {
            output.push(0x1B);
            output.push(0x46);
            self.bold = false;
        }
        if self.underline {
            output.push(0x1B);
            output.push(0x2D);
            output.push(0x00);
            self.underline = false;
        }
        assert(output@ =~= old(output)@ + transition(old(self).style(), StyleFlags::NONE));
    }
}

/// No style code holds a form feed.
proof fn lemma_transition_no_ff(from: StyleFlags, to: StyleFlags)
    ensures
        count_byte(transition(from, to), FF) == 0,
{
    let t = transition(from, to);
    assert forall|i: int| 0 <= i < t.len() implies t[i] != FF by {
        let a = if from.spec_bold() == to.spec_bold() {
            Seq::<u8>::empty()
        } else if to.spec_bold() {
            bold_on_bytes()
        } else {
            bold_off_bytes()
        };
        if i < a.len() {
            assert(t[i] == a[i]);
        }
    }
    lemma_count_absent(t, FF);
}

/// Streams row `y` of `page`, one cell after another.
pub fn render_line(page: &Page, y: usize, state: &mut RenderState, output: &mut Vec<u8>)
    requires
        y < PAGE_HEIGHT,
        page.grid().len() == GRID_LEN,
        old(state).style() == StyleFlags::NONE,
    ensures
        final(output)@ == old(output)@ + row_prefix_bytes(
            grid_row(page.grid(), y as int),
            PAGE_WIDTH as nat,
        ),
        final(state).style() == style_after(grid_row(page.grid(), y as int), PAGE_WIDTH as int),
        count_byte(final(output)@, FF) == count_byte(old(output)@, FF),
{
    let ghost row = grid_row(page.grid(), y as int);
    let mut x: usize = 0;
    while x < 160
        invariant
            x <= 160,
            y < 51,
            page.grid().len() == GRID_LEN,
            row == grid_row(page.grid(), y as int),
            output@ == old(output)@ + row_prefix_bytes(row, x as nat),
            state.style() == style_after(row, x as int),
            count_byte(output@, FF) == count_byte(old(output)@, FF),
        decreases 160 - x,
    {
        let cell = page.cell_at(y * 160 + x);
        assert(cell == row[x as int]);
        let ghost before = output@;
        state.transition_to(cell.style(), output);
        let b = cell.byte();
        output.push(b);
        proof {
            let step = transition(style_after(row, x as int), row[x as int].spec_style());
            assert(output@ =~= before + (step + seq![b]));
            lemma_transition_no_ff(style_after(row, x as int), row[x as int].spec_style());
            assert(count_byte(seq![b], FF) == 0) by {
                reveal_with_fuel(count_byte, 2);
                assert(seq![b].drop_last() =~= Seq::<u8>::empty());
            }
            lemma_count_concat(step, seq![b], FF);
            lemma_count_concat(before, step + seq![b], FF);
            assert(row_prefix_bytes(row, (x + 1) as nat) =~= row_prefix_bytes(row, x as nat) + (step
                + seq![b]));
        }
        x = x + 1;
    }
}

/// Streams all 51 rows of `page`, each ended by CR LF and a style reset.
pub fn render_page(page: &Page, output: &mut Vec<u8>)
    ensures
        final(output)@ == old(output)@ + page_bytes(page.grid()),
        count_byte(final(output)@, FF) == count_byte(old(output)@, FF),
{
    let _cells = page.grid_len();
    let mut state = RenderState::new();
    let mut y: usize = 0;
    while y < 51
        invariant
            y <= 51,
            page.grid().len() == GRID_LEN,
            state.style() == StyleFlags::NONE,
            output@ == old(output)@ + page_prefix_bytes(page.grid(), y as nat),
            count_byte(output@, FF) == count_byte(old(output)@, FF),
        decreases 51 - y,
    {
        let ghost row = grid_row(page.grid(), y as int);
        let ghost before = output@;
        render_line(page, y, &mut state, output);
        let ghost after_cells = output@;
        output.push(CR);
        output.push(LF);
        let ghost after_crlf = output@;
        state.reset(output);
        proof {
            assert(row.len() == PAGE_WIDTH);
            let tail = transition(style_after(row, PAGE_WIDTH as int), StyleFlags::NONE);
            assert(output@ =~= after_cells + seq![CR, LF] + tail);
            assert(count_byte(seq![CR, LF], FF) == 0) by {
                lemma_count_absent(seq![CR, LF], FF);
            }
            lemma_transition_no_ff(style_after(row, PAGE_WIDTH as int), StyleFlags::NONE);
            lemma_count_concat(after_cells, seq![CR, LF], FF);
            lemma_count_concat(after_cells + seq![CR, LF], tail, FF);
            assert(page_prefix_bytes(page.grid(), (y + 1) as nat) =~= page_prefix_bytes(
                page.grid(),
                y as nat,
            ) + row_bytes(row));
        }
        y = y + 1;
    }
}

/// The grids of a sequence of pages.
pub open spec fn grids_of(pages: Seq<Page>) -> Seq<Seq<Cell>> {
    pages.map_values(|p: Page| p.grid())
}

/// Streams a document: the init codes, then each page followed by a form feed.
pub fn render_document(pages: &[Page]) -> (output: Vec<u8>)
    ensures
        output@ == document_bytes(grids_of(pages@)),
        output@.subrange(0, 3) == init_bytes(),
        count_byte(output@, FF) == pages@.len(),
{
    let mut output: Vec<u8> = Vec::new();
    output.push(0x1B);
    output.push(0x40);
    output.push(0x0F);
    proof {
        assert(output@ =~= init_bytes());
        lemma_count_absent(output@, FF);
    }
    let mut i: usize = 0;
    while i < pages.len()
        invariant
            i <= pages@.len(),
            output@ == document_prefix_bytes(grids_of(pages@), i as nat),
            output@.len() >= 3,
            output@.subrange(0, 3) == init_bytes(),
            count_byte(output@, FF) == i,
        decreases pages@.len() - i,
    {
        let ghost before = output@;
        render_page(&pages[i], &mut output);
        output.push(FF);
        proof {
            let pb = page_bytes(pages@[i as int].grid());
            assert(output@ =~= before + pb + seq![FF]);
            assert(count_byte(seq![FF], FF) == 1) by {
                reveal_with_fuel(count_byte, 2);
                assert(seq![FF].drop_last() =~= Seq::<u8>::empty());
            }
            lemma_count_concat(before + pb, seq![FF], FF);
            assert(output@.subrange(0, 3) =~= before.subrange(0, 3));
            assert(document_prefix_bytes(grids_of(pages@), (i + 1) as nat) =~= before + pb + seq![FF]);
        }
        i = i + 1;
    }
    proof {
        assert(grids_of(pages@).len() == pages@.len());
    }
    output
}

} // verus!
