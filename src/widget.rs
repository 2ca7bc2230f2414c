use vstd::prelude::*;

use crate::cell::StyleFlags;
use crate::page::PageBuilder;
use crate::region::{PAGE_HEIGHT, PAGE_WIDTH};

mod context;
mod error;
pub mod layout;

pub use context::{
    apply_writes, clip, first_rejected, in_clip, render_outcome, RenderContext, TextWrite,
};
pub use error::RenderError;
pub use layout::{Column, Row, Stack};

use context::{lemma_outcome_concat, lemma_outcome_empty, lemma_outcome_stop};

verus! {

/// Two boxes (x, y, width, height) overlap: their intervals intersect strictly
/// on both axes, so boxes that only share an edge do not overlap.
pub open spec fn boxes_overlap(a: (u16, u16, u16, u16), b: (u16, u16, u16, u16)) -> bool {
    &&& a.0 < b.0 + b.2
    &&& b.0 < a.0 + a.2
    &&& a.1 < b.1 + b.3
    &&& b.1 < a.1 + a.3
}

/// Boxes that only share an edge do not overlap.
pub proof fn lemma_touching_boxes_do_not_overlap(a: (u16, u16, u16, u16), b: (u16, u16, u16, u16))
    requires
        a.0 + a.2 == b.0 || b.0 + b.2 == a.0 || a.1 + a.3 == b.1 || b.1 + b.3 == a.1,
    ensures
        !boxes_overlap(a, b),
{
}

/// Non-empty boxes where each starts inside the other's interval on both axes overlap.
pub proof fn lemma_intersecting_boxes_overlap(a: (u16, u16, u16, u16), b: (u16, u16, u16, u16))
    requires
        a.2 > 0 && a.3 > 0 && b.2 > 0 && b.3 > 0,
        a.0 <= b.0 < a.0 + a.2 || b.0 <= a.0 < b.0 + b.2,
        a.1 <= b.1 < a.1 + a.3 || b.1 <= a.1 < b.1 + b.3,
    ensures
        boxes_overlap(a, b),
{
}

/// `a + b`, held at the largest `u16`.
pub open spec fn sat_add(a: u16, b: u16) -> u16 {
    if a + b > u16::MAX {
        u16::MAX
    } else {
        (a + b) as u16
    }
}

/// The absolute position of something placed at `rel` inside a parent at `base`.
pub open spec fn offset(base: (u16, u16), rel: (u16, u16)) -> (u16, u16) {
    (sat_add(base.0, rel.0), sat_add(base.1, rel.1))
}

/// The length in bytes of the UTF-8 form of `text`, as `str::len` reports it.
pub open spec fn byte_len(text: Seq<char>) -> usize {
    vstd::utf8::encode_utf8(text).len() as usize
}

/// A label's text fits: at most `width` bytes and no line break.
pub open spec fn text_fits(text: Seq<char>, width: u16) -> bool {
    &&& byte_len(text) <= width
    &&& !text.contains('\n')
}

/// A node of the widget tree: a container or a text leaf.
pub enum Element {
    Rect(Rect),
    Label(Label),
}

/// A child of a container: the widget, its position inside the parent, and its size.
pub struct WidgetNode {
    position: (u16, u16),
    width: u16,
    height: u16,
    widget: Element,
}

/// A container of fixed size whose children are placed at explicit positions.
pub struct Rect {
    width: u16,
    height: u16,
    children: Vec<WidgetNode>,
}

/// A single-line text leaf of fixed width.
pub struct Label {
    width: u16,
    text: Option<String>,
    style: StyleFlags,
}

impl Element {
    /// The declared width.
    pub open spec fn spec_width(self) -> u16 {
        match self {
            Element::Rect(r) => r.spec_width(),
            Element::Label(l) => l.spec_width(),
        }
    }

    /// The declared height; a label's is 1.
    pub open spec fn spec_height(self) -> u16 {
        match self {
            Element::Rect(r) => r.spec_height(),
            Element::Label(l) => 1,
        }
    }

    /// Renders this node at an absolute position.
    pub fn render_element(&self, context: &mut RenderContext, position: (u16, u16)) -> (r: Result<
        (),
        RenderError,
    >)
        ensures
            render_outcome(old(context).grid(), final(context).grid(), writes(*self, position), r),
        decreases self,
    {
        match self {
            Element::Rect(rect) => rect.render_children(context, position),
            Element::Label(label) => label.render_text(context, position),
        }
    }
}

impl WidgetNode {
    /// Position inside the parent.
    pub closed spec fn spec_position(self) -> (u16, u16) {
        self.position
    }

    /// The widget.
    pub closed spec fn spec_element(self) -> Element {
        self.widget
    }

    /// The box (x, y, width, height) the child takes inside its parent.
    pub closed spec fn bounds(self) -> (u16, u16, u16, u16) {
        (self.position.0, self.position.1, self.width, self.height)
    }

    /// Wraps a widget placed at `position`.
    pub(crate) fn new<W: Widget>(widget: W, position: (u16, u16)) -> (n: WidgetNode)
        ensures
            n.spec_position() == position,
            n.spec_element() == widget.element(),
            tree_valid(n.spec_element()),
            n.bounds() == (
                position.0,
                position.1,
                widget.element().spec_width(),
                widget.element().spec_height(),
            ),
    {
        let width = widget.width();
        let height = widget.height();
        WidgetNode { position, width, height, widget: widget.into_element() }
    }
}

/// The writes a node makes when rendered at `pos`, in render order: depth
/// first, children in insertion order, each at its parent's position plus its own.
pub closed spec fn writes(e: Element, pos: (u16, u16)) -> Seq<TextWrite>
    decreases e,
{
    match e {
        Element::Label(l) => match l.text {
            Some(t) => seq![TextWrite { position: pos, text: t@, style: l.style }],
            None => Seq::empty(),
        },
        Element::Rect(r) => children_writes(r.children@, pos),
    }
}

/// The writes of a list of children of a container rendered at `pos`.
pub closed spec fn children_writes(cs: Seq<WidgetNode>, pos: (u16, u16)) -> Seq<TextWrite>
    decreases cs,
{
    if cs.len() == 0 {
        Seq::empty()
    } else {
        children_writes(cs.drop_last(), pos) + writes(
            cs.last().widget,
            offset(pos, cs.last().position),
        )
    }
}

/// Each child lies inside a `width` by `height` parent, its recorded size is
/// its widget's size, and no two children overlap.
pub open spec fn children_valid(cs: Seq<WidgetNode>, width: u16, height: u16) -> bool {
    &&& forall|i: int|
        0 <= i < cs.len() ==> {
            let b = #[trigger] cs[i].bounds();
            &&& b.0 + b.2 <= width
            &&& b.1 + b.3 <= height
            &&& b.2 == cs[i].spec_element().spec_width()
            &&& b.3 == cs[i].spec_element().spec_height()
        }
    &&& forall|i: int, j: int|
        0 <= i < j < cs.len() ==> !boxes_overlap(#[trigger] cs[i].bounds(), #[trigger] cs[j].bounds())
}

/// Every node of the tree is well formed: each container has non-zero size
/// and valid children, and each label has non-zero width and fitting text.
pub closed spec fn tree_valid(e: Element) -> bool
    decreases e,
{
    match e {
        Element::Label(l) => l.width > 0 && (l.text matches Some(t) ==> text_fits(t@, l.width)),
        Element::Rect(r) => {
            &&& r.width > 0
            &&& r.height > 0
            &&& children_valid(r.children@, r.width, r.height)
            &&& forall|i: int| 0 <= i < r.children@.len() ==> tree_valid(#[trigger] r.children@[i].widget)
        },
    }
}

/// A widget that can be placed in a container and rendered.
pub trait Widget: Sized {
    /// The tree node this widget is.
    spec fn element(&self) -> Element;

    /// Width in columns.
    fn width(&self) -> (r: u16)
        ensures
            r == self.element().spec_width(),
            tree_valid(self.element()),
    ;

    /// Height in rows.
    fn height(&self) -> (r: u16)
        ensures
            r == self.element().spec_height(),
    ;

    /// Turns the widget into its tree node.
    fn into_element(self) -> (e: Element)
        ensures
            e == self.element(),
            tree_valid(e),
    ;

    /// Renders the widget with its top-left corner at an absolute position.
    fn render_to(&self, context: &mut RenderContext, position: (u16, u16)) -> (r: Result<
        (),
        RenderError,
    >)
        ensures
            render_outcome(
                old(context).grid(),
                final(context).grid(),
                writes(self.element(), position),
                r,
            ),
    ;
}

impl Widget for Element {
    open spec fn element(&self) -> Element {
        *self
    }

    fn width(&self) -> (r: u16) {
        match self {
            Element::Rect(rect) => {
                proof {
                    use_type_invariant(rect);
                }
                rect.width
            },
            Element::Label(label) => {
                proof {
                    use_type_invariant(label);
                }
                label.width
            },
        }
    }

    fn height(&self) -> (r: u16) {
        match self {
            Element::Rect(rect) => rect.height,
            Element::Label(_) => 1,
        }
    }

    fn into_element(self) -> (e: Element) {
        match &self {
            Element::Rect(rect) => {
                proof {
                    use_type_invariant(rect);
                }
            },
            Element::Label(label) => {
                proof {
                    use_type_invariant(label);
                }
            },
        }
        self
    }

    fn render_to(&self, context: &mut RenderContext, position: (u16, u16)) -> (r: Result<
        (),
        RenderError,
    >) {
        self.render_element(context, position)
    }
}

/// The children's writes split at any point.
proof fn lemma_children_writes_concat(a: Seq<WidgetNode>, b: Seq<WidgetNode>, pos: (u16, u16))
    ensures
        children_writes(a + b, pos) == children_writes(a, pos) + children_writes(b, pos),
    decreases b.len(),
{
    if b.len() == 0 {
        assert(a + b =~= a);
        assert(children_writes(a, pos) + Seq::<TextWrite>::empty() =~= children_writes(a, pos));
    } else {
        assert((a + b).drop_last() =~= a + b.drop_last());
        lemma_children_writes_concat(a, b.drop_last(), pos);
        assert(children_writes(a + b, pos) =~= children_writes(a, pos) + children_writes(b, pos));
    }
}

/// `v`, held at the largest `u16`.
pub open spec fn cap(v: int) -> u16 {
    if v > u16::MAX {
        u16::MAX
    } else {
        v as u16
    }
}

/// The node reached from `e` by following the child indices in `path`, with
/// the sums of the relative x and y positions met on the way; `None` when the
/// path leaves the tree.
pub closed spec fn descend(e: Element, path: Seq<int>) -> Option<(Element, int, int)>
    decreases path.len(),
{
    if path.len() == 0 {
        Some((e, 0, 0))
    } else {
        match e {
            Element::Rect(r) => if 0 <= path[0] < r.children@.len() {
                let c = r.children@[path[0]];
                match descend(c.widget, path.drop_first()) {
                    Some(found) => Some((found.0, found.1 + c.position.0, found.2 + c.position.1)),
                    None => None,
                }
            } else {
                None
            },
            Element::Label(_) => None,
        }
    }
}

/// The sums of relative positions along a path are never negative.
proof fn lemma_descend_nonneg(e: Element, path: Seq<int>)
    ensures
        descend(e, path) matches Some(f) ==> f.1 >= 0 && f.2 >= 0,
    decreases path.len(),
{
    if path.len() > 0 {
        if let Element::Rect(r) = e {
            if 0 <= path[0] < r.children@.len() {
                lemma_descend_nonneg(r.children@[path[0]].widget, path.drop_first());
            }
        }
    }
}

/// The text a label writes, if it has any.
pub closed spec fn label_write(l: Label, pos: (u16, u16)) -> Option<TextWrite> {
    match l.text {
        Some(t) => Some(TextWrite { position: pos, text: t@, style: l.style }),
        None => None,
    }
}

/// A child's writes are among its parent's, at the parent's position plus the child's.
proof fn lemma_child_writes_included(cs: Seq<WidgetNode>, k: int, pos: (u16, u16), w: TextWrite)
    requires
        0 <= k < cs.len(),
        writes(cs[k].widget, offset(pos, cs[k].position)).contains(w),
    ensures
        children_writes(cs, pos).contains(w),
{
    let head = cs.take(k + 1);
    let rest = cs.skip(k + 1);
    assert(cs =~= head + rest);
    lemma_children_writes_concat(head, rest, pos);
    assert(head.drop_last() =~= cs.take(k));
    let mine = writes(cs[k].widget, offset(pos, cs[k].position));
    let before = children_writes(cs.take(k), pos);
    assert(children_writes(head, pos) == before + mine);
    let i = choose|i: int| 0 <= i < mine.len() && mine[i] == w;
    assert((before + mine + children_writes(rest, pos))[before.len() + i] == w);
}

/// Positions accumulate through any depth of nesting: a label reached by
/// `path` from a widget rendered at `pos` writes its text at `pos` plus the
/// relative positions of every container on the way and its own (held at the
/// largest `u16`).
pub proof fn lemma_cumulative_position(e: Element, path: Seq<int>, pos: (u16, u16))
    requires
        descend(e, path) matches Some((Element::Label(l), dx, dy)) && label_write(l, (0, 0)) is Some,
    ensures
        descend(e, path) matches Some((Element::Label(l), dx, dy)) && writes(e, pos).contains(
            label_write(l, (cap(pos.0 + dx), cap(pos.1 + dy)))->0,
        ),
    decreases path.len(),
{
    if path.len() == 0 {
        let l = e->Label_0;
        let w = label_write(l, pos)->0;
        assert(writes(e, pos)[0] == w);
    } else {
        let r = e->Rect_0;
        let c = r.children@[path[0]];
        let p2 = offset(pos, c.position);
        lemma_cumulative_position(c.widget, path.drop_first(), p2);
        let found = descend(c.widget, path.drop_first())->0;
        let l = found.0->Label_0;
        lemma_descend_nonneg(c.widget, path.drop_first());
        assert(cap(p2.0 + found.1) == cap(pos.0 + (found.1 + c.position.0)));
        assert(cap(p2.1 + found.2) == cap(pos.1 + (found.2 + c.position.1)));
        lemma_child_writes_included(r.children@, path[0], pos, label_write(l, (cap(p2.0 + found.1), cap(p2.1 + found.2)))->0);
    }
}

impl Rect {
    #[verifier::type_invariant]
    spec fn valid(self) -> bool {
        &&& self.width > 0
        &&& self.height > 0
        &&& children_valid(self.children@, self.width, self.height)
        &&& forall|i: int| 0 <= i < self.children@.len() ==> tree_valid(#[trigger] self.children@[i].widget)
    }

    /// The declared width.
    pub closed spec fn spec_width(self) -> u16 {
        self.width
    }

    /// The declared height.
    pub closed spec fn spec_height(self) -> u16 {
        self.height
    }

    /// The children, in insertion order.
    pub closed spec fn spec_children(self) -> Seq<WidgetNode> {
        self.children@
    }

    /// The children's boxes, in insertion order.
    pub open spec fn child_bounds(self) -> Seq<(u16, u16, u16, u16)> {
        self.spec_children().map_values(|n: WidgetNode| n.bounds())
    }

    /// An empty container; its size must be non-zero.
    pub fn new(width: u16, height: u16) -> (r: Rect)
        requires
            width > 0,
            height > 0,
        ensures
            r.spec_width() == width,
            r.spec_height() == height,
            r.spec_children() == Seq::<WidgetNode>::empty(),
    {
        Rect { width, height, children: Vec::new() }
    }

    /// Places `widget` with its top-left corner at `position`, relative to this container.
    ///
    /// Checks, in order, that position plus size fits in 16 bits, that the
    /// child lies inside the container, and that it overlaps no earlier child
    /// (sharing an edge is no overlap). On failure the container is unchanged.
    pub fn add_child<W: Widget>(&mut self, widget: W, position: (u16, u16)) -> (r: Result<
        (),
        RenderError,
    >)
        ensures
            ({
                let cw = widget.element().spec_width();
                let ch = widget.element().spec_height();
                let new_box = (position.0, position.1, cw, ch);
                let old_children = old(self).spec_children();
                &&& final(self).spec_width() == old(self).spec_width()
                &&& final(self).spec_height() == old(self).spec_height()
                &&& r is Err ==> final(self).spec_children() == old_children
                &&& position.0 + cw > u16::MAX ==> (r matches Err(RenderError::IntegerOverflow { operation }) && operation@ == "child position.x + width"@)
                &&& position.0 + cw <= u16::MAX && position.1 + ch > u16::MAX ==> (r matches Err(RenderError::IntegerOverflow { operation }) && operation@ == "child position.y + height"@)
                &&& position.0 + cw <= u16::MAX && position.1 + ch <= u16::MAX && (position.0 + cw
                    > old(self).spec_width() || position.1 + ch > old(self).spec_height()) ==> r
                    == Err::<(), RenderError>(
                    RenderError::ChildExceedsParent {
                        parent_width: old(self).spec_width(),
                        parent_height: old(self).spec_height(),
                        child_width: cw,
                        child_height: ch,
                        position,
                    },
                )
                &&& position.0 + cw <= old(self).spec_width() && position.1 + ch <= old(self).spec_height()
                    ==> {
                    ||| (exists|k: int|
                        0 <= k < old_children.len() && boxes_overlap(
                            old_children[k].bounds(),
                            new_box,
                        ) && (forall|j: int|
                            0 <= j < k ==> !boxes_overlap(
                                #[trigger] old_children[j].bounds(),
                                new_box,
                            )) && r == Err::<(), RenderError>(
                            RenderError::OverlappingChildren {
                                child1_bounds: old_children[k].bounds(),
                                child2_bounds: new_box,
                            },
                        ))
                    ||| ((forall|j: int|
                        0 <= j < old_children.len() ==> !boxes_overlap(
                            #[trigger] old_children[j].bounds(),
                            new_box,
                        )) && r == Ok::<(), RenderError>(()) && final(self).spec_children().len()
                        == old_children.len() + 1 && final(self).spec_children().drop_last()
                        == old_children && final(self).spec_children().last().spec_position()
                        == position && final(self).spec_children().last().spec_element()
                        == widget.element() && final(self).spec_children().last().bounds()
                        == new_box)
                }
            }),
    {
        proof {
            use_type_invariant(&*self);
        }
        let child_width = widget.width();
        let child_height = widget.height();
        if position.0 > u16::MAX - child_width {
            let operation = "child position.x + width".to_owned();
            return Err(RenderError::IntegerOverflow { operation });
        }
        if position.1 > u16::MAX - child_height {
            let operation = "child position.y + height".to_owned();
            return Err(RenderError::IntegerOverflow { operation });
        }
        let child_right = position.0 + child_width;
        let child_bottom = position.1 + child_height;
        if child_right > self.width || child_bottom > self.height {
            return Err(
                RenderError::ChildExceedsParent {
                    parent_width: self.width,
                    parent_height: self.height,
                    child_width,
                    child_height,
                    position,
                },
            );
        }
        let ghost new_box = (position.0, position.1, child_width, child_height);
        let mut i: usize = 0;
        while i < self.children.len()
            invariant
                i <= self.children@.len(),
                children_valid(self.children@, self.width, self.height),
                self.children@ == old(self).spec_children(),
                self.width == old(self).spec_width(),
                self.height == old(self).spec_height(),
                child_right == position.0 + child_width,
                child_bottom == position.1 + child_height,
                child_right <= self.width,
                child_bottom <= self.height,
                new_box == (position.0, position.1, child_width, child_height),
                child_width == widget.element().spec_width(),
                child_height == widget.element().spec_height(),
                forall|j: int| 0 <= j < i ==> !boxes_overlap(#[trigger] self.children@[j].bounds(), new_box),
            decreases self.children@.len() - i,
        {
            let existing = &self.children[i];
            assert(existing.bounds() == self.children@[i as int].bounds());
            let existing_right = existing.position.0 + existing.width;
            let existing_bottom = existing.position.1 + existing.height;
            let overlaps = child_right > existing.position.0 && position.0 < existing_right
                && child_bottom > existing.position.1 && position.1 < existing_bottom;
            assert(overlaps == boxes_overlap(self.children@[i as int].bounds(), new_box));
            if overlaps {
                assert(self.children@ == old(self).spec_children());
                return Err(
                    RenderError::OverlappingChildren {
                        child1_bounds: (
                            existing.position.0,
                            existing.position.1,
                            existing.width,
                            existing.height,
                        ),
                        child2_bounds: (position.0, position.1, child_width, child_height),
                    },
                );
            }
            i = i + 1;
        }
        let node = WidgetNode::new(widget, position);
        let mut children: Vec<WidgetNode> = Vec::new();
        std::mem::swap(&mut children, &mut self.children);
        let ghost before = children@;
        children.push(node);
        proof {
            assert(children@.drop_last() =~= before);
            assert forall|a: int, b: int| 0 <= a < b < children@.len() implies !boxes_overlap(
                #[trigger] children@[a].bounds(),
                #[trigger] children@[b].bounds(),
            ) by {
                if b < before.len() {
                    assert(children@[a] == before[a]);
                    assert(children@[b] == before[b]);
                } else {
                    assert(children@[a] == before[a]);
                }
            }
            assert forall|a: int| 0 <= a < children@.len() implies tree_valid(#[trigger] children@[a].widget) by {
                if a < before.len() {
                    assert(children@[a] == before[a]);
                }
            }
            assert forall|a: int| 0 <= a < children@.len() implies {
                let b = #[trigger] children@[a].bounds();
                &&& b.0 + b.2 <= self.width
                &&& b.1 + b.3 <= self.height
                &&& b.2 == children@[a].spec_element().spec_width()
                &&& b.3 == children@[a].spec_element().spec_height()
            } by {
                if a < before.len() {
                    assert(children@[a] == before[a]);
                }
            }
        }
        std::mem::swap(&mut children, &mut self.children);
        Ok(())
    }

    /// Renders every child at this container's position plus the child's own,
    /// in insertion order, stopping at the first error.
    fn render_children(&self, context: &mut RenderContext, position: (u16, u16)) -> (r: Result<
        (),
        RenderError,
    >)
        ensures
            render_outcome(
                old(context).grid(),
                final(context).grid(),
                children_writes(self.children@, position),
                r,
            ),
        decreases self,
    {
        let ghost cs = self.children@;
        let ghost g0 = context.grid();
        proof {
            lemma_outcome_empty(g0);
            assert(cs.take(0) =~= Seq::<WidgetNode>::empty());
        }
        let mut i: usize = 0;
        while i < self.children.len()
            invariant
                i <= cs.len(),
                cs == self.children@,
                g0 == old(context).grid(),
                render_outcome(g0, context.grid(), children_writes(cs.take(i as int), position), Ok(())),
            decreases cs.len() - i,
        {
            let child = &self.children[i];
            let child_pos = (
                position.0.saturating_add(child.position.0),
                position.1.saturating_add(child.position.1),
            );
            let ghost g1 = context.grid();
            let ghost child_writes = writes(cs[i as int].widget, offset(position, cs[i as int].position));
            proof {
                assert(cs.take(i as int + 1).drop_last() =~= cs.take(i as int));
                assert(children_writes(cs.take(i as int + 1), position) == children_writes(cs.take(i as int), position) + child_writes);
            }
            let result = child.widget.render_element(context, child_pos);
            proof {
                lemma_outcome_concat(g0, g1, context.grid(), children_writes(cs.take(i as int), position), child_writes, result);
            }
            assert(child_pos == offset(position, cs[i as int].position));
            if result.is_err() {
                proof {
                    let rest = cs.skip(i as int + 1);
                    assert(cs =~= cs.take(i as int + 1) + rest);
                    lemma_children_writes_concat(cs.take(i as int + 1), rest, position);
                    lemma_outcome_stop(g0, context.grid(), children_writes(cs.take(i as int + 1), position), children_writes(rest, position), result);
                }
                return result;
            }
            i = i + 1;
        }
        proof {
            assert(cs.take(cs.len() as int) =~= cs);
        }
        Ok(())
    }
}

impl Widget for Rect {
    open spec fn element(&self) -> Element {
        Element::Rect(*self)
    }

    fn width(&self) -> (r: u16) {
        proof {
            use_type_invariant(self);
        }
        self.width
    }

    fn height(&self) -> (r: u16) {
        self.height
    }

    fn into_element(self) -> (e: Element) {
        proof {
            use_type_invariant(&self);
        }
        Element::Rect(self)
    }

    fn render_to(&self, context: &mut RenderContext, position: (u16, u16)) -> (r: Result<
        (),
        RenderError,
    >) {
        self.render_children(context, position)
    }
}

/// Whether `text` holds a line feed.
fn has_newline(text: &str) -> (r: bool)
    ensures
        r == text@.contains('\n'),
{
    let mut found = false;
    for ch in it: text.chars()
        invariant
            it.seq() == text@,
            found == exists|j: int| 0 <= j < it.index() && text@[j] == '\n',
    {
        if ch == '\n' {
            found = true;
        }
    }
    found
}

impl Label {
    #[verifier::type_invariant]
    spec fn valid(self) -> bool {
        &&& self.width > 0
        &&& self.text matches Some(t) ==> text_fits(t@, self.width)
    }

    /// The declared width.
    pub closed spec fn spec_width(self) -> u16 {
        self.width
    }

    /// The text, once set.
    pub closed spec fn spec_text(self) -> Option<Seq<char>> {
        match self.text {
            Some(t) => Some(t@),
            None => None,
        }
    }

    /// The style the text is written in.
    pub closed spec fn spec_style(self) -> StyleFlags {
        self.style
    }

    /// An empty, unstyled label of the given width; the width must be non-zero.
    pub fn new(width: u16) -> (l: Label)
        requires
            width > 0,
        ensures
            l.spec_width() == width,
            l.spec_text() is None,
            l.spec_style() == StyleFlags::NONE,
    {
        Label { width, text: None, style: StyleFlags::NONE }
    }

    /// Sets the text.
    ///
    /// Fails with `TextExceedsWidth` when the text has more bytes than the
    /// label is wide, or holds a line feed.
    pub fn add_text(self, text: &str) -> (r: Result<Label, RenderError>)
        ensures
            !text_fits(text@, self.spec_width()) ==> r == Err::<Label, RenderError>(
                RenderError::TextExceedsWidth {
                    text_length: byte_len(text@) as u16,
                    widget_width: self.spec_width(),
                },
            ),
            text_fits(text@, self.spec_width()) ==> (r matches Ok(l) && l.spec_width()
                == self.spec_width() && l.spec_text() == Some(text@) && l.spec_style()
                == self.spec_style()),
    {
        proof {
            use_type_invariant(&self);
        }
        let length = text.len();
        assert(length == byte_len(text@));
        if length > self.width as usize || has_newline(text) {
            return Err(
                RenderError::TextExceedsWidth {
                    text_length: length as u16,
                    widget_width: self.width,
                },
            );
        }
        let owned = text.to_owned();
        Ok(Label { width: self.width, text: Some(owned), style: self.style })
    }

    /// Adds bold to the style.
    pub fn bold(self) -> (l: Label)
        ensures
            l.spec_width() == self.spec_width(),
            l.spec_text() == self.spec_text(),
            l.spec_style() == StyleFlags::from_flags(true, self.spec_style().spec_underline()),
    {
        proof {
            use_type_invariant(&self);
        }
        let style = self.style.with_bold();
        Label { width: self.width, text: self.text, style }
    }

    /// Adds underline to the style.
    pub fn underline(self) -> (l: Label)
        ensures
            l.spec_width() == self.spec_width(),
            l.spec_text() == self.spec_text(),
            l.spec_style() == StyleFlags::from_flags(self.spec_style().spec_bold(), true),
    {
        proof {
            use_type_invariant(&self);
        }
        let style = self.style.with_underline();
        Label { width: self.width, text: self.text, style }
    }

    /// Writes the text, if any, at an absolute position.
    fn render_text(&self, context: &mut RenderContext, position: (u16, u16)) -> (r: Result<
        (),
        RenderError,
    >)
        ensures
            render_outcome(
                old(context).grid(),
                final(context).grid(),
                writes(Element::Label(*self), position),
                r,
            ),
    {
        match &self.text {
            Some(text) => context.write_styled(text.as_str(), position, self.style),
            None => {
                proof {
                    lemma_outcome_empty(context.grid());
                }
                Ok(())
            },
        }
    }
}

impl Widget for Label {
    open spec fn element(&self) -> Element {
        Element::Label(*self)
    }

    fn width(&self) -> (r: u16) {
        proof {
            use_type_invariant(self);
        }
        self.width
    }

    fn height(&self) -> (r: u16) {
        1
    }

    fn into_element(self) -> (e: Element) {
        proof {
            use_type_invariant(&self);
        }
        Element::Label(self)
    }

    fn render_to(&self, context: &mut RenderContext, position: (u16, u16)) -> (r: Result<
        (),
        RenderError,
    >) {
        self.render_text(context, position)
    }
}

/// Every write of a well-formed tree placed at `pos` so that it fits in the
/// page starts inside the page.
pub proof fn lemma_fitting_tree_writes_in_clip(e: Element, pos: (u16, u16))
    requires
        tree_valid(e),
        pos.0 + e.spec_width() <= PAGE_WIDTH,
        pos.1 + e.spec_height() <= PAGE_HEIGHT,
    ensures
        forall|i: int| 0 <= i < writes(e, pos).len() ==> in_clip(#[trigger] writes(e, pos)[i].position),
    decreases e,
{
    match e {
        Element::Label(l) => {},
        Element::Rect(r) => {
            lemma_children_in_clip(r.children@, r.width, r.height, pos);
        },
    }
}

/// Every write of valid children of a `w` by `h` container placed at `pos` so
/// that it fits in the page starts inside the page.
proof fn lemma_children_in_clip(cs: Seq<WidgetNode>, w: u16, h: u16, pos: (u16, u16))
    requires
        children_valid(cs, w, h),
        forall|i: int| 0 <= i < cs.len() ==> tree_valid(#[trigger] cs[i].widget),
        pos.0 + w <= PAGE_WIDTH,
        pos.1 + h <= PAGE_HEIGHT,
    ensures
        forall|i: int|
            0 <= i < children_writes(cs, pos).len() ==> in_clip(
                #[trigger] children_writes(cs, pos)[i].position,
            ),
    decreases cs,
{
    if cs.len() > 0 {
        let rest = cs.drop_last();
        let c = cs.last();
        assert(c == cs[cs.len() - 1]);
        assert forall|i: int| 0 <= i < rest.len() implies tree_valid(#[trigger] rest[i].widget) by {
            assert(rest[i] == cs[i]);
        }
        assert forall|i: int| 0 <= i < rest.len() implies {
            let b = #[trigger] rest[i].bounds();
            &&& b.0 + b.2 <= w
            &&& b.1 + b.3 <= h
            &&& b.2 == rest[i].spec_element().spec_width()
            &&& b.3 == rest[i].spec_element().spec_height()
        } by {
            assert(rest[i] == cs[i]);
        }
        assert forall|i: int, j: int| 0 <= i < j < rest.len() implies !boxes_overlap(
            #[trigger] rest[i].bounds(),
            #[trigger] rest[j].bounds(),
        ) by {
            assert(rest[i] == cs[i]);
            assert(rest[j] == cs[j]);
        }
        lemma_children_in_clip(rest, w, h, pos);
        let cpos = offset(pos, c.position);
        assert(c.bounds().0 + c.bounds().2 <= w);
        assert(cpos.0 == pos.0 + c.position.0);
        assert(cpos.1 == pos.1 + c.position.1);
        lemma_fitting_tree_writes_in_clip(c.widget, cpos);
        let a = children_writes(rest, pos);
        let b = writes(c.widget, cpos);
        assert(children_writes(cs, pos) == a + b);
        assert forall|i: int| 0 <= i < (a + b).len() implies in_clip(#[trigger] (a + b)[i].position) by {
            if i < a.len() {
                assert((a + b)[i] == a[i]);
            } else {
                assert((a + b)[i] == b[i - a.len()]);
            }
        }
    }
}

/// A well-formed tree whose root fits in the page renders from (0, 0)
/// without any write being rejected.
pub proof fn lemma_fitting_tree_renders(e: Element)
    requires
        tree_valid(e),
        e.spec_width() <= PAGE_WIDTH,
        e.spec_height() <= PAGE_HEIGHT,
    ensures
        first_rejected(writes(e, (0, 0))) == writes(e, (0, 0)).len(),
{
    let ws = writes(e, (0, 0));
    lemma_fitting_tree_writes_in_clip(e, (0, 0));
    context::lemma_first_rejected_bound(ws);
    if first_rejected(ws) < ws.len() {
        assert(in_clip(ws[first_rejected(ws) as int].position));
    }
}

impl PageBuilder {
    /// Renders a widget tree with its root at (0, 0), stopping at the first error.
    ///
    /// The tree is only read, so it can be rendered any number of times.
    pub fn render<W: Widget>(&mut self, widget: &W) -> (r: Result<(), RenderError>)
        ensures
            render_outcome(old(self).grid(), final(self).grid(), writes(widget.element(), (0, 0)), r),
            widget.element().spec_width() <= PAGE_WIDTH && widget.element().spec_height() <= PAGE_HEIGHT
                ==> r is Ok,
    {
        let width = widget.width();
        let height = widget.height();
        proof {
            if width <= PAGE_WIDTH && height <= PAGE_HEIGHT {
                lemma_fitting_tree_renders(widget.element());
            }
        }
        let mut page = PageBuilder::new();
        std::mem::swap(&mut page, self);
        let mut context = RenderContext::new(page);
        let result = widget.render_to(&mut context, (0, 0));
        let mut page = context.into_page();
        std::mem::swap(&mut page, self);
        result
    }
}

} // verus!
