use vstd::prelude::*;

use crate::text::{decimal, push_decimal, push_text, string_from_chars};

verus! {

/// Errors of region construction, splitting and padding.
#[derive(Debug, Clone, PartialEq, Eq, Structural)]
pub enum LayoutError {
    /// The region would extend beyond the page (160 by 51).
    RegionOutOfBounds { x: u16, y: u16, width: u16, height: u16 },
    /// A width or height is zero, or would become zero.
    InvalidDimensions { width: u16, height: u16 },
    /// A requested split size exceeds the parent's dimension.
    InvalidSplit { parent_size: u16, split_size: u16 },
}

impl LayoutError {
    /// The human-readable description, with the offending values.
    pub open spec fn spec_message(self) -> Seq<char> {
        match self {
            LayoutError::RegionOutOfBounds { x, y, width, height } => "Region out of bounds: position ("@
                + decimal(x as nat) + ", "@ + decimal(y as nat) + "), size ("@ + decimal(width as nat)
                + "×"@ + decimal(height as nat) + ") exceeds page dimensions (160×51)"@,
            LayoutError::InvalidDimensions { width, height } => "Invalid region dimensions: "@
                + decimal(width as nat) + "×"@ + decimal(height as nat)
                + " (must be non-zero and within page bounds)"@,
            LayoutError::InvalidSplit { parent_size, split_size } => "Invalid region split: split size "@
                + decimal(split_size as nat) + " exceeds parent size "@ + decimal(parent_size as nat),
        }
    }

    /// The human-readable description, with the offending values.
    pub fn message(&self) -> (r: String)
        ensures
            r@ == self.spec_message(),
    {
        let mut out: Vec<char> = Vec::new();
        match self {
            LayoutError::RegionOutOfBounds { x, y, width, height } => {
                push_text(&mut out, "Region out of bounds: position (");
                push_decimal(&mut out, *x as u64);
                push_text(&mut out, ", ");
                push_decimal(&mut out, *y as u64);
                push_text(&mut out, "), size (");
                push_decimal(&mut out, *width as u64);
                push_text(&mut out, "×");
                push_decimal(&mut out, *height as u64);
                push_text(&mut out, ") exceeds page dimensions (160×51)");
            },
            LayoutError::InvalidDimensions { width, height } => {
                push_text(&mut out, "Invalid region dimensions: ");
                push_decimal(&mut out, *width as u64);
                push_text(&mut out, "×");
                push_decimal(&mut out, *height as u64);
                push_text(&mut out, " (must be non-zero and within page bounds)");
            },
            LayoutError::InvalidSplit { parent_size, split_size } => {
                push_text(&mut out, "Invalid region split: split size ");
                push_decimal(&mut out, *split_size as u64);
                push_text(&mut out, " exceeds parent size ");
                push_decimal(&mut out, *parent_size as u64);
            },
        }
        proof {
            assert(out@ =~= self.spec_message());
        }
        string_from_chars(&out)
    }
}

} // verus!
