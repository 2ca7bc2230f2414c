use vstd::prelude::*;

use crate::text::{decimal, push_decimal, push_text, string_from_chars};

verus! {

/// Violations found while composing or rendering a widget tree.
#[non_exhaustive]
#[derive(Debug, PartialEq, Eq)]
pub enum RenderError {
    /// The child's box extends beyond the parent's size.
    ChildExceedsParent {
        parent_width: u16,
        parent_height: u16,
        child_width: u16,
        child_height: u16,
        position: (u16, u16),
    },
    /// A write starts outside the clip bounds (x, y, width, height).
    OutOfBounds { position: (u16, u16), bounds: (u16, u16, u16, u16) },
    /// The new child's box (x, y, width, height) intersects an existing child's box.
    OverlappingChildren { child1_bounds: (u16, u16, u16, u16), child2_bounds: (u16, u16, u16, u16) },
    /// A layout allocator has less space left than requested.
    InsufficientSpace { available: u16, required: u16, layout_type: &'static str },
    /// A position plus a size does not fit in 16 bits.
    IntegerOverflow { operation: String },
    /// Label text is longer than the label or spans more than one line.
    TextExceedsWidth { text_length: u16, widget_width: u16 },
}

impl RenderError {
    /// The human-readable description, with the offending values.
    pub open spec fn spec_message(&self) -> Seq<char> {
        match self {
            RenderError::ChildExceedsParent {
                parent_width,
                parent_height,
                child_width,
                child_height,
                position,
            } => "Child widget ("@ + decimal(*child_width as nat) + "×"@ + decimal(
                *child_height as nat,
            ) + ") at position ("@ + decimal(position.0 as nat) + ", "@ + decimal(position.1 as nat)
                + ") exceeds parent bounds ("@ + decimal(*parent_width as nat) + "×"@ + decimal(
                *parent_height as nat,
            ) + ")"@,
            RenderError::OutOfBounds { position, bounds } => "Position ("@ + decimal(
                position.0 as nat,
            ) + ", "@ + decimal(position.1 as nat) + ") exceeds bounds ("@ + decimal(bounds.2 as nat)
                + "×"@ + decimal(bounds.3 as nat) + " at "@ + decimal(bounds.0 as nat) + ", "@
                + decimal(bounds.1 as nat) + ")"@,
            RenderError::OverlappingChildren { child1_bounds, child2_bounds } =>
                "Child widgets overlap: child1 (x:"@ + decimal(child1_bounds.0 as nat) + ", y:"@
                + decimal(child1_bounds.1 as nat) + ", w:"@ + decimal(child1_bounds.2 as nat) + ", h:"@
                + decimal(child1_bounds.3 as nat) + ") intersects child2 (x:"@ + decimal(
                child2_bounds.0 as nat,
            ) + ", y:"@ + decimal(child2_bounds.1 as nat) + ", w:"@ + decimal(child2_bounds.2 as nat)
                + ", h:"@ + decimal(child2_bounds.3 as nat) + ")"@,
            RenderError::InsufficientSpace { available, required, layout_type } => (*layout_type)@
                + " layout requires "@ + decimal(*required as nat) + " units but only "@ + decimal(
                *available as nat,
            ) + " available"@,
            RenderError::IntegerOverflow { operation } => "Integer overflow in "@ + operation@,
            RenderError::TextExceedsWidth { text_length, widget_width } => "Text length ("@
                + decimal(*text_length as nat) + ") exceeds widget width ("@ + decimal(
                *widget_width as nat,
            ) + ")"@,
        }
    }

    /// The human-readable description, with the offending values.
    pub fn message(&self) -> (r: String)
        ensures
            r@ == self.spec_message(),
    {
        let mut out: Vec<char> = Vec::new();
        match self {
            RenderError::ChildExceedsParent {
                parent_width,
                parent_height,
                child_width,
                child_height,
                position,
            } => {
                push_text(&mut out, "Child widget (");
                push_decimal(&mut out, *child_width as u64);
                push_text(&mut out, "×");
                push_decimal(&mut out, *child_height as u64);
                push_text(&mut out, ") at position (");
                push_decimal(&mut out, position.0 as u64);
                push_text(&mut out, ", ");
                push_decimal(&mut out, position.1 as u64);
                push_text(&mut out, ") exceeds parent bounds (");
                push_decimal(&mut out, *parent_width as u64);
                push_text(&mut out, "×");
                push_decimal(&mut out, *parent_height as u64);
                push_text(&mut out, ")");
            },
            RenderError::OutOfBounds { position, bounds } => {
                push_text(&mut out, "Position (");
                push_decimal(&mut out, position.0 as u64);
                push_text(&mut out, ", ");
                push_decimal(&mut out, position.1 as u64);
                push_text(&mut out, ") exceeds bounds (");
                push_decimal(&mut out, bounds.2 as u64);
                push_text(&mut out, "×");
                push_decimal(&mut out, bounds.3 as u64);
                push_text(&mut out, " at ");
                push_decimal(&mut out, bounds.0 as u64);
                push_text(&mut out, ", ");
                push_decimal(&mut out, bounds.1 as u64);
                push_text(&mut out, ")");
            },
            RenderError::OverlappingChildren { child1_bounds, child2_bounds } => {
                push_text(&mut out, "Child widgets overlap: child1 (x:");
                push_decimal(&mut out, child1_bounds.0 as u64);
                push_text(&mut out, ", y:");
                push_decimal(&mut out, child1_bounds.1 as u64);
                push_text(&mut out, ", w:");
                push_decimal(&mut out, child1_bounds.2 as u64);
                push_text(&mut out, ", h:");
                push_decimal(&mut out, child1_bounds.3 as u64);
                push_text(&mut out, ") intersects child2 (x:");
                push_decimal(&mut out, child2_bounds.0 as u64);
                push_text(&mut out, ", y:");
                push_decimal(&mut out, child2_bounds.1 as u64);
                push_text(&mut out, ", w:");
                push_decimal(&mut out, child2_bounds.2 as u64);
                push_text(&mut out, ", h:");
                push_decimal(&mut out, child2_bounds.3 as u64);
                push_text(&mut out, ")");
            },
            RenderError::InsufficientSpace { available, required, layout_type } => {
                push_text(&mut out, *layout_type);
                push_text(&mut out, " layout requires ");
                push_decimal(&mut out, *required as u64);
                push_text(&mut out, " units but only ");
                push_decimal(&mut out, *available as u64);
                push_text(&mut out, " available");
            },
            RenderError::IntegerOverflow { operation } => {
                push_text(&mut out, "Integer overflow in ");
                push_text(&mut out, operation.as_str());
            },
            RenderError::TextExceedsWidth { text_length, widget_width } => {
                push_text(&mut out, "Text length (");
                push_decimal(&mut out, *text_length as u64);
                push_text(&mut out, ") exceeds widget width (");
                push_decimal(&mut out, *widget_width as u64);
                push_text(&mut out, ")");
            },
        }
        proof {
            assert(out@ =~= self.spec_message());
        }
        string_from_chars(&out)
    }
}

} // verus!
