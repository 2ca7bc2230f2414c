use vstd::prelude::*;

use crate::error::LayoutError;

verus! {

/// Page width in columns.
pub const PAGE_WIDTH: u16 = 160;

/// Page height in lines.
pub const PAGE_HEIGHT: u16 = 51;

/// A rectangle with non-zero size that lies inside the page.
pub open spec fn region_fits(x: int, y: int, width: int, height: int) -> bool {
    &&& width > 0
    &&& height > 0
    &&& x + width <= PAGE_WIDTH
    &&& y + height <= PAGE_HEIGHT
}

/// A rectangular area of the page.
#[derive(Copy, Clone, Debug, PartialEq, Eq, Structural)]
pub struct Region {
    x: u16,
    y: u16,
    width: u16,
    height: u16,
}

impl Region {
    #[verifier::type_invariant]
    spec fn inside_page(self) -> bool {
        region_fits(self.x as int, self.y as int, self.width as int, self.height as int)
    }

    /// Starting column.
    pub closed spec fn spec_x(self) -> u16 {
        self.x
    }

    /// Starting row.
    pub closed spec fn spec_y(self) -> u16 {
        self.y
    }

    /// Width in columns.
    pub closed spec fn spec_width(self) -> u16 {
        self.width
    }

    /// Height in lines.
    pub closed spec fn spec_height(self) -> u16 {
        self.height
    }

    /// The region with the given values.
    pub closed spec fn spec_at(x: u16, y: u16, width: u16, height: u16) -> Region {
        Region { x, y, width, height }
    }

    /// A region is the one built from its four values.
    pub proof fn lemma_is_at(r: Region, x: u16, y: u16, width: u16, height: u16)
        requires
            r.is(x as int, y as int, width as int, height as int),
        ensures
            r == Region::spec_at(x, y, width, height),
            Region::spec_at(x, y, width, height).is(x as int, y as int, width as int, height as int),
    {
    }

    /// The region's four values.
    pub open spec fn is(self, x: int, y: int, width: int, height: int) -> bool {
        &&& self.spec_x() == x
        &&& self.spec_y() == y
        &&& self.spec_width() == width
        &&& self.spec_height() == height
    }

    /// Creates a region; it must have non-zero size and lie inside the page.
    pub fn new(x: u16, y: u16, width: u16, height: u16) -> (r: Result<Region, LayoutError>)
        ensures
            width == 0 || height == 0 ==> r == Err::<Region, LayoutError>(
                LayoutError::InvalidDimensions { width, height },
            ),
            width > 0 && height > 0 && !region_fits(x as int, y as int, width as int, height as int)
                ==> r == Err::<Region, LayoutError>(
                LayoutError::RegionOutOfBounds { x, y, width, height },
            ),
            region_fits(x as int, y as int, width as int, height as int) ==> (r matches Ok(g) && g.is(
                x as int,
                y as int,
                width as int,
                height as int,
            )),
    {
        if width == 0 || height == 0 {
            return Err(LayoutError::InvalidDimensions { width, height });
        }
        if x > PAGE_WIDTH || width > PAGE_WIDTH - x || y > PAGE_HEIGHT || height > PAGE_HEIGHT - y {
            return Err(LayoutError::RegionOutOfBounds { x, y, width, height });
        }
        Ok(Region { x, y, width, height })
    }

    /// The region covering the whole page.
    pub fn full_page() -> (r: Region)
        ensures
            r.is(0, 0, PAGE_WIDTH as int, PAGE_HEIGHT as int),
    {
        Region { x: 0, y: 0, width: PAGE_WIDTH, height: PAGE_HEIGHT }
    }

    /// Starting column.
    pub fn x(&self) -> (r: u16)
        ensures
            r == self.spec_x(),
            region_fits(r as int, self.spec_y() as int, self.spec_width() as int, self.spec_height() as int),
    {
        proof {
            use_type_invariant(self);
        }
        self.x
    }

    /// Starting row.
    pub fn y(&self) -> (r: u16)
        ensures
            r == self.spec_y(),
            region_fits(self.spec_x() as int, r as int, self.spec_width() as int, self.spec_height() as int),
    {
        proof {
            use_type_invariant(self);
        }
        self.y
    }

    /// Width in columns.
    pub fn width(&self) -> (r: u16)
        ensures
            r == self.spec_width(),
            region_fits(self.spec_x() as int, self.spec_y() as int, r as int, self.spec_height() as int),
    {
        proof {
            use_type_invariant(self);
        }
        self.width
    }

    /// Height in lines.
    pub fn height(&self) -> (r: u16)
        ensures
            r == self.spec_height(),
            region_fits(self.spec_x() as int, self.spec_y() as int, self.spec_width() as int, r as int),
    {
        proof {
            use_type_invariant(self);
        }
        self.height
    }

    /// Splits into a top region of `top_height` lines and a bottom region with the rest.
    pub fn split_vertical(&self, top_height: u16) -> (r: Result<(Region, Region), LayoutError>)
        ensures
            top_height > self.spec_height() ==> r == Err::<(Region, Region), LayoutError>(
                LayoutError::InvalidSplit { parent_size: self.spec_height(), split_size: top_height },
            ),
            (top_height == 0 || top_height == self.spec_height()) ==> r == Err::<
                (Region, Region),
                LayoutError,
            >(LayoutError::InvalidDimensions { width: self.spec_width(), height: 0 }),
            0 < top_height < self.spec_height() ==> (r matches Ok((top, bottom)) && top.is(
                self.spec_x() as int,
                self.spec_y() as int,
                self.spec_width() as int,
                top_height as int,
            ) && bottom.is(
                self.spec_x() as int,
                self.spec_y() + top_height,
                self.spec_width() as int,
                self.spec_height() - top_height,
            )),
    {
        proof {
            use_type_invariant(self);
        }
        if top_height > self.height {
            return Err(LayoutError::InvalidSplit { parent_size: self.height, split_size: top_height });
        }
        if top_height == 0 || top_height == self.height {
            return Err(LayoutError::InvalidDimensions { width: self.width, height: 0 });
        }
        let top = Region { x: self.x, y: self.y, width: self.width, height: top_height };
        let bottom = Region {
            x: self.x,
            y: self.y + top_height,
            width: self.width,
            height: self.height - top_height,
        };
        Ok((top, bottom))
    }

    /// Splits into a left region of `left_width` columns and a right region with the rest.
    pub fn split_horizontal(&self, left_width: u16) -> (r: Result<(Region, Region), LayoutError>)
        ensures
            left_width > self.spec_width() ==> r == Err::<(Region, Region), LayoutError>(
                LayoutError::InvalidSplit { parent_size: self.spec_width(), split_size: left_width },
            ),
            (left_width == 0 || left_width == self.spec_width()) ==> r == Err::<
                (Region, Region),
                LayoutError,
            >(LayoutError::InvalidDimensions { width: 0, height: self.spec_height() }),
            0 < left_width < self.spec_width() ==> (r matches Ok((left, right)) && left.is(
                self.spec_x() as int,
                self.spec_y() as int,
                left_width as int,
                self.spec_height() as int,
            ) && right.is(
                self.spec_x() + left_width,
                self.spec_y() as int,
                self.spec_width() - left_width,
                self.spec_height() as int,
            )),
    {
        proof {
            use_type_invariant(self);
        }
        if left_width > self.width {
            return Err(LayoutError::InvalidSplit { parent_size: self.width, split_size: left_width });
        }
        if left_width == 0 || left_width == self.width {
            return Err(LayoutError::InvalidDimensions { width: 0, height: self.height });
        }
        let left = Region { x: self.x, y: self.y, width: left_width, height: self.height };
        let right = Region {
            x: self.x + left_width,
            y: self.y,
            width: self.width - left_width,
            height: self.height,
        };
        Ok((left, right))
    }

    /// Shrinks the region by the given padding on each side.
    ///
    /// Fails when the padding on an axis reaches or exceeds the region's size on it.
    pub fn with_padding(&self, top: u16, right: u16, bottom: u16, left: u16) -> (r: Result<
        Region,
        LayoutError,
    >)
        ensures
            (left + right >= self.spec_width() || top + bottom >= self.spec_height()) ==> r == Err::<
                Region,
                LayoutError,
            >(
                LayoutError::InvalidDimensions {
                    width: saturating_gap(self.spec_width() as int, left + right),
                    height: saturating_gap(self.spec_height() as int, top + bottom),
                },
            ),
            (left + right < self.spec_width() && top + bottom < self.spec_height()) ==> (r matches Ok(g) && g.is(
                self.spec_x() + left,
                self.spec_y() + top,
                self.spec_width() - left - right,
                self.spec_height() - top - bottom,
            )),
    {
        proof {
            use_type_invariant(self);
        }
        let horizontal = left.saturating_add(right);
        let vertical = top.saturating_add(bottom);
        if horizontal >= self.width || vertical >= self.height {
            return Err(
                LayoutError::InvalidDimensions {
                    width: self.width.saturating_sub(horizontal),
                    height: self.height.saturating_sub(vertical),
                },
            );
        }
        Ok(
            Region {
                x: self.x + left,
                y: self.y + top,
                width: self.width - horizontal,
                height: self.height - vertical,
            },
        )
    }
}

/// `size - used`, or zero when `used` is at least `size`.
pub open spec fn saturating_gap(size: int, used: int) -> u16 {
    if used >= size {
        0
    } else {
        (size - used) as u16
    }
}

} // verus!
