use vstd::prelude::*;

use crate::cell::{Cell, StyleFlags};
use crate::page::{written, PageBuilder};
use crate::region::{PAGE_HEIGHT, PAGE_WIDTH};
use crate::widget::error::RenderError;

verus! {

/// One text write of a render pass: where it starts, what it writes, in which style.
pub struct TextWrite {
    pub position: (u16, u16),
    pub text: Seq<char>,
    pub style: StyleFlags,
}

/// The clip bounds of every render pass: the whole page, as (x, y, width, height).
pub open spec fn clip() -> (u16, u16, u16, u16) {
    (0, 0, PAGE_WIDTH, PAGE_HEIGHT)
}

/// A write may start at `p`.
pub open spec fn in_clip(p: (u16, u16)) -> bool {
    p.0 < PAGE_WIDTH && p.1 < PAGE_HEIGHT
}

/// The grid after one write.
pub open spec fn apply_write(grid: Seq<Cell>, w: TextWrite) -> Seq<Cell> {
    written(grid, w.position.0 as int, w.position.1 as int, w.text, w.style)
}

/// The grid after a sequence of writes, in order.
pub open spec fn apply_writes(grid: Seq<Cell>, ws: Seq<TextWrite>) -> Seq<Cell>
    decreases ws.len(),
{
    if ws.len() == 0 {
        grid
    } else {
        apply_write(apply_writes(grid, ws.drop_last()), ws.last())
    }
}

/// The index of the first write that starts outside the clip bounds, or the
/// number of writes when all start inside.
pub open spec fn first_rejected(ws: Seq<TextWrite>) -> nat
    decreases ws.len(),
{
    if ws.len() == 0 {
        0
    } else {
        let k = first_rejected(ws.drop_last());
        if k < ws.len() - 1 {
            k
        } else if in_clip(ws.last().position) {
            ws.len()
        } else {
            (ws.len() - 1) as nat
        }
    }
}

/// What a fail-fast render pass that makes the writes `ws` does: the writes
/// before the first rejected one reach the grid, and the result is `Ok` when
/// none is rejected, else `OutOfBounds` at the rejected write's position.
pub open spec fn render_outcome(
    before: Seq<Cell>,
    after: Seq<Cell>,
    ws: Seq<TextWrite>,
    r: Result<(), RenderError>,
) -> bool {
    let k = first_rejected(ws);
    &&& after == apply_writes(before, ws.take(k as int))
    &&& k == ws.len() ==> r == Ok::<(), RenderError>(())
    &&& k < ws.len() ==> r == Err::<(), RenderError>(
        RenderError::OutOfBounds { position: ws[k as int].position, bounds: clip() },
    )
}

/// `first_rejected` never passes the end.
pub proof fn lemma_first_rejected_bound(ws: Seq<TextWrite>)
    ensures
        first_rejected(ws) <= ws.len(),
        first_rejected(ws) < ws.len() ==> !in_clip(ws[first_rejected(ws) as int].position),
        forall|i: int| 0 <= i < first_rejected(ws) ==> in_clip(#[trigger] ws[i].position),
    decreases ws.len(),
{
    if ws.len() > 0 {
        let d = ws.drop_last();
        lemma_first_rejected_bound(d);
        assert forall|i: int| 0 <= i < first_rejected(ws) implies in_clip(#[trigger] ws[i].position) by {
            if i < d.len() {
                assert(ws[i] == d[i]);
            }
        }
    }
}

/// Where the first rejected write of a concatenation is.
pub proof fn lemma_first_rejected_concat(a: Seq<TextWrite>, b: Seq<TextWrite>)
    ensures
        first_rejected(a) < a.len() ==> first_rejected(a + b) == first_rejected(a),
        first_rejected(a) == a.len() ==> first_rejected(a + b) == a.len() + first_rejected(b),
    decreases b.len(),
{
    lemma_first_rejected_bound(a);
    if b.len() == 0 {
        assert(a + b =~= a);
    } else {
        assert((a + b).drop_last() =~= a + b.drop_last());
        lemma_first_rejected_concat(a, b.drop_last());
        lemma_first_rejected_bound(b.drop_last());
    }
}

/// Applying a concatenation applies one part after the other.
pub proof fn lemma_apply_concat(g: Seq<Cell>, a: Seq<TextWrite>, b: Seq<TextWrite>)
    ensures
        apply_writes(g, a + b) == apply_writes(apply_writes(g, a), b),
    decreases b.len(),
{
    if b.len() == 0 {
        assert(a + b =~= a);
    } else {
        assert((a + b).drop_last() =~= a + b.drop_last());
        lemma_apply_concat(g, a, b.drop_last());
    }
}

/// A pass that makes the writes `a` without rejection, followed by one that
/// makes the writes `b`, is one pass that makes `a + b`.
pub proof fn lemma_outcome_concat(
    g0: Seq<Cell>,
    g1: Seq<Cell>,
    g2: Seq<Cell>,
    a: Seq<TextWrite>,
    b: Seq<TextWrite>,
    r: Result<(), RenderError>,
)
    requires
        render_outcome(g0, g1, a, Ok(())),
        render_outcome(g1, g2, b, r),
    ensures
        render_outcome(g0, g2, a + b, r),
{
    lemma_first_rejected_bound(a);
    lemma_first_rejected_bound(b);
    lemma_first_rejected_concat(a, b);
    let k = first_rejected(b);
    assert(a.take(a.len() as int) =~= a);
    assert((a + b).take((a.len() + k) as int) =~= a + b.take(k as int));
    lemma_apply_concat(g0, a, b.take(k as int));
    if k < b.len() {
        assert((a + b)[(a.len() + k) as int] == b[k as int]);
    }
}

/// A pass that stopped at a rejected write stays stopped whatever would follow.
pub proof fn lemma_outcome_stop(g0: Seq<Cell>, g1: Seq<Cell>, a: Seq<TextWrite>, b: Seq<TextWrite>, r: Result<(), RenderError>)
    requires
        render_outcome(g0, g1, a, r),
        r is Err,
    ensures
        render_outcome(g0, g1, a + b, r),
{
    lemma_first_rejected_bound(a);
    lemma_first_rejected_concat(a, b);
    let k = first_rejected(a);
    assert((a + b).take(k as int) =~= a.take(k as int));
    assert((a + b)[k as int] == a[k as int]);
}

/// No writes: nothing changes and the pass succeeds.
pub proof fn lemma_outcome_empty(g: Seq<Cell>)
    ensures
        render_outcome(g, g, Seq::empty(), Ok(())),
{
    assert(Seq::<TextWrite>::empty().take(0) =~= Seq::<TextWrite>::empty());
}

/// A render pass over one page: it checks where each write starts and hands
/// accepted writes to the page, which drops what passes the page's edge.
pub struct RenderContext {
    page: PageBuilder,
}

impl RenderContext {
    /// The page's cells so far.
    pub closed spec fn grid(&self) -> Seq<Cell> {
        self.page.grid()
    }

    /// Starts a render pass on `page`; the clip bounds are the whole page.
    pub fn new(page: PageBuilder) -> (c: RenderContext)
        ensures
            c.grid() == page.grid(),
    {
        RenderContext { page }
    }

    /// Ends the pass and hands the page back.
    pub fn into_page(self) -> (p: PageBuilder)
        ensures
            p.grid() == self.grid(),
    {
        self.page
    }

    /// Writes unstyled text starting at an absolute position.
    pub fn write_text(&mut self, text: &str, position: (u16, u16)) -> (r: Result<(), RenderError>)
        ensures
            render_outcome(
                old(self).grid(),
                final(self).grid(),
                seq![TextWrite { position, text: text@, style: StyleFlags::NONE }],
                r,
            ),
    {
        self.write_styled(text, position, StyleFlags::NONE)
    }

    /// Writes styled text starting at an absolute position.
    ///
    /// Only the start is checked against the clip bounds; characters past the
    /// page's right edge are dropped by the page.
    pub fn write_styled(&mut self, text: &str, position: (u16, u16), style: StyleFlags) -> (r: Result<
        (),
        RenderError,
    >)
        ensures
            render_outcome(
                old(self).grid(),
                final(self).grid(),
                seq![TextWrite { position, text: text@, style }],
                r,
            ),
    {
        let ghost ws = seq![TextWrite { position, text: text@, style }];
        proof {
            reveal_with_fuel(first_rejected, 2);
            reveal_with_fuel(apply_writes, 2);
            assert(ws.drop_last() =~= Seq::<TextWrite>::empty());
        }
        if position.0 >= PAGE_WIDTH || position.1 >= PAGE_HEIGHT {
            proof {
                assert(ws.take(0) =~= Seq::<TextWrite>::empty());
            }
            return Err(RenderError::OutOfBounds { position, bounds: (0, 0, PAGE_WIDTH, PAGE_HEIGHT) });
        }
        self.page.write_str(position.0, position.1, text, style);
        proof {
            assert(ws.take(1) =~= ws);
        }
        Ok(())
    }

    /// The clip bounds (x, y, width, height): always the whole page.
    pub fn clip_bounds(&self) -> (r: (u16, u16, u16, u16))
        ensures
            r == clip(),
    {
        (0, 0, PAGE_WIDTH, PAGE_HEIGHT)
    }
}

} // verus!
