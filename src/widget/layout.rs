use vstd::prelude::*;

use crate::widget::error::RenderError;
use crate::widget::{Rect, WidgetNode};

verus! {

/// An empty container of the given size.
pub open spec fn fresh_rect(r: Rect, width: u16, height: u16) -> bool {
    &&& r.spec_width() == width
    &&& r.spec_height() == height
    &&& r.spec_children() == Seq::<WidgetNode>::empty()
}

/// Cuts a `width` by `height` area into rows from the top down: each `area`
/// call returns a full-width container below the previous one.
pub struct Column {
    width: u16,
    height: u16,
    current_y: u16,
}

impl Column {
    #[verifier::type_invariant]
    spec fn valid(self) -> bool {
        &&& self.width > 0
        &&& self.height > 0
        &&& self.current_y <= self.height
    }

    /// Width of the area being divided.
    pub closed spec fn spec_width(self) -> u16 {
        self.width
    }

    /// Height of the area being divided.
    pub closed spec fn spec_height(self) -> u16 {
        self.height
    }

    /// Rows handed out so far.
    pub closed spec fn used(self) -> u16 {
        self.current_y
    }

    /// A column over a `width` by `height` area with nothing handed out; the size must be non-zero.
    pub fn new(width: u16, height: u16) -> (c: Column)
        requires
            width > 0,
            height > 0,
        ensures
            c.spec_width() == width,
            c.spec_height() == height,
            c.used() == 0,
    {
        Column { width, height, current_y: 0 }
    }

    /// Hands out the next `h` rows as a `width` by `h` container, with its
    /// position inside the divided area; `h` must be non-zero.
    ///
    /// Fails with `InsufficientSpace`, and hands out nothing, when fewer than
    /// `h` rows are left.
    pub fn area(&mut self, h: u16) -> (r: Result<(Rect, (u16, u16)), RenderError>)
        requires
            h > 0,
        ensures
            final(self).spec_width() == old(self).spec_width(),
            final(self).spec_height() == old(self).spec_height(),
            old(self).used() <= old(self).spec_height(),
            old(self).used() + h > old(self).spec_height() ==> r == Err::<(Rect, (u16, u16)), RenderError>(
                RenderError::InsufficientSpace {
                    available: (old(self).spec_height() - old(self).used()) as u16,
                    required: h,
                    layout_type: "Column",
                },
            ) && final(self).used() == old(self).used(),
            old(self).used() + h <= old(self).spec_height() ==> (r matches Ok((rect, pos)) && fresh_rect(
                rect,
                old(self).spec_width(),
                h,
            ) && pos == (0u16, old(self).used()) && final(self).used() == old(self).used() + h),
    {
        proof {
            use_type_invariant(&*self);
        }
        if h > self.height - self.current_y {
            return Err(
                RenderError::InsufficientSpace {
                    available: self.height - self.current_y,
                    required: h,
                    layout_type: "Column",
                },
            );
        }
        let position = (0, self.current_y);
        let rect = Rect::new(self.width, h);
        self.current_y = self.current_y + h;
        Ok((rect, position))
    }
}

/// Cuts a `width` by `height` area into columns from the left: each `area`
/// call returns a full-height container right of the previous one.
pub struct Row {
    width: u16,
    height: u16,
    current_x: u16,
}

impl Row {
    #[verifier::type_invariant]
    spec fn valid(self) -> bool {
        &&& self.width > 0
        &&& self.height > 0
        &&& self.current_x <= self.width
    }

    /// Width of the area being divided.
    pub closed spec fn spec_width(self) -> u16 {
        self.width
    }

    /// Height of the area being divided.
    pub closed spec fn spec_height(self) -> u16 {
        self.height
    }

    /// Columns handed out so far.
    pub closed spec fn used(self) -> u16 {
        self.current_x
    }

    /// A row over a `width` by `height` area with nothing handed out; the size must be non-zero.
    pub fn new(width: u16, height: u16) -> (c: Row)
        requires
            width > 0,
            height > 0,
        ensures
            c.spec_width() == width,
            c.spec_height() == height,
            c.used() == 0,
    {
        Row { width, height, current_x: 0 }
    }

    /// Hands out the next `w` columns as a `w` by `height` container, with its
    /// position inside the divided area; `w` must be non-zero.
    ///
    /// Fails with `InsufficientSpace`, and hands out nothing, when fewer than
    /// `w` columns are left.
    pub fn area(&mut self, w: u16) -> (r: Result<(Rect, (u16, u16)), RenderError>)
        requires
            w > 0,
        ensures
            final(self).spec_width() == old(self).spec_width(),
            final(self).spec_height() == old(self).spec_height(),
            old(self).used() <= old(self).spec_width(),
            old(self).used() + w > old(self).spec_width() ==> r == Err::<(Rect, (u16, u16)), RenderError>(
                RenderError::InsufficientSpace {
                    available: (old(self).spec_width() - old(self).used()) as u16,
                    required: w,
                    layout_type: "Row",
                },
            ) && final(self).used() == old(self).used(),
            old(self).used() + w <= old(self).spec_width() ==> (r matches Ok((rect, pos)) && fresh_rect(
                rect,
                w,
                old(self).spec_height(),
            ) && pos == (old(self).used(), 0u16) && final(self).used() == old(self).used() + w),
    {
        proof {
            use_type_invariant(&*self);
        }
        if w > self.width - self.current_x {
            return Err(
                RenderError::InsufficientSpace {
                    available: self.width - self.current_x,
                    required: w,
                    layout_type: "Row",
                },
            );
        }
        let position = (self.current_x, 0);
        let rect = Rect::new(w, self.height);
        self.current_x = self.current_x + w;
        Ok((rect, position))
    }
}

/// Hands out full-size layers of a `width` by `height` area, all at (0, 0).
pub struct Stack {
    width: u16,
    height: u16,
}

impl Stack {
    #[verifier::type_invariant]
    spec fn valid(self) -> bool {
        &&& self.width > 0
        &&& self.height > 0
    }

    /// Width of the area.
    pub closed spec fn spec_width(self) -> u16 {
        self.width
    }

    /// Height of the area.
    pub closed spec fn spec_height(self) -> u16 {
        self.height
    }

    /// A stack over a `width` by `height` area; the size must be non-zero.
    pub fn new(width: u16, height: u16) -> (s: Stack)
        requires
            width > 0,
            height > 0,
        ensures
            s.spec_width() == width,
            s.spec_height() == height,
    {
        Stack { width, height }
    }

    /// A new full-size, empty layer at (0, 0); every call gives an independent one.
    pub fn area(&self) -> (r: (Rect, (u16, u16)))
        ensures
            fresh_rect(r.0, self.spec_width(), self.spec_height()),
            r.1 == (0u16, 0u16),
    {
        proof {
            use_type_invariant(self);
        }
        (Rect::new(self.width, self.height), (0, 0))
    }
}

} // verus!
