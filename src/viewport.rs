//! The viewport: canvas size, pixel offsets and depth ceiling, and the
//! mapping from pixel indices to integer plane coordinates.
//!
//! A pixel in column `i` and row `j` (top row first) stands for the plane
//! point `(column_coord(i) * scale, row_coord(j) * scale)`; the scale factor
//! is applied by whoever evaluates the recurrence.
use vstd::prelude::*;

verus! {

/// Why a configuration was refused.
#[derive(Clone, Copy, Debug, PartialEq, Eq, Structural)]
pub enum ConfigError {
    /// The width is zero or negative.
    NonPositiveWidth,
    /// The height is zero or negative.
    NonPositiveHeight,
    /// The depth ceiling is zero.
    ZeroDepth,
    /// Three bytes per pixel would not be addressable.
    TooLarge,
}

/// One render's canvas. Build it with [`Viewport::new`], which checks it.
#[derive(Clone, Copy, Debug, PartialEq, Eq, Structural)]
pub struct Viewport {
    pub width: i32,
    pub height: i32,
    pub x_offset: i32,
    pub y_offset: i32,
    pub depth_max: u8,
}

/// Whether a raster of `width * height` pixels, at three bytes each, can be
/// addressed.
pub open spec fn raster_fits(width: int, height: int) -> bool {
    3 * (width * height) <= usize::MAX
}

impl Viewport {
    /// Positive dimensions, a positive depth ceiling, and a raster that fits.
    pub open spec fn wf(self) -> bool {
        &&& self.width > 0
        &&& self.height > 0
        &&& self.depth_max >= 1
        &&& raster_fits(self.width as int, self.height as int)
    }

    /// Number of pixels.
    pub open spec fn area(self) -> int {
        self.width * self.height
    }

    /// Horizontal plane coordinate, in pixel steps, of column `i`.
    pub open spec fn column_at(self, i: int) -> int {
        i - self.width / 2 + self.x_offset
    }

    /// Vertical plane coordinate, in pixel steps, of row `j`.
    pub open spec fn row_at(self, j: int) -> int {
        j - self.height / 2 + self.y_offset
    }

    /// Checks a configuration, in this order: width, height, depth ceiling,
    /// raster size.
    pub fn new(width: i32, height: i32, x_offset: i32, y_offset: i32, depth_max: u8) -> (r: Result<
        Viewport,
        ConfigError,
    >)
        ensures
            width <= 0 ==> r == Err::<Viewport, ConfigError>(ConfigError::NonPositiveWidth),
            width > 0 && height <= 0 ==> r == Err::<Viewport, ConfigError>(
                ConfigError::NonPositiveHeight,
            ),
            width > 0 && height > 0 && depth_max == 0 ==> r == Err::<Viewport, ConfigError>(
                ConfigError::ZeroDepth,
            ),
            width > 0 && height > 0 && depth_max > 0 && !raster_fits(width as int, height as int)
                ==> r == Err::<Viewport, ConfigError>(ConfigError::TooLarge),
            width > 0 && height > 0 && depth_max > 0 && raster_fits(width as int, height as int)
                ==> r == Ok::<Viewport, ConfigError>(
                (Viewport { width, height, x_offset, y_offset, depth_max }),
            ),
            r matches Ok(v) ==> v.wf(),
    {
        if width <= 0 {
            return Err(ConfigError::NonPositiveWidth);
        }
        if height <= 0 {
            return Err(ConfigError::NonPositiveHeight);
        }
        if depth_max == 0 {
            return Err(ConfigError::ZeroDepth);
        }
        assert((width as u64) * (height as u64) < 0x4000_0000_0000_0000) by (nonlinear_arith)
            requires
                0 < width < 0x8000_0000,
                0 < height < 0x8000_0000,
        ;
        let area: u64 = (width as u64) * (height as u64);
        if area > (usize::MAX as u64) / 3 {
            return Err(ConfigError::TooLarge);
        }
        Ok(Viewport { width, height, x_offset, y_offset, depth_max })
    }

    /// Number of pixels.
    pub fn pixel_count(&self) -> (r: usize)
        requires
            self.wf(),
        ensures
            r == self.area(),
    {
        (self.width as usize) * (self.height as usize)
    }

    /// Horizontal plane coordinate, in pixel steps, of column `i`:
    /// `i - width / 2 + x_offset`.
    pub fn column_coord(&self, i: usize) -> (r: i64)
        requires
            self.wf(),
            i < self.width,
        ensures
            r == self.column_at(i as int),
    {
        i as i64 - (self.width / 2) as i64 + self.x_offset as i64
    }

    /// Vertical plane coordinate, in pixel steps, of row `j`:
    /// `j - height / 2 + y_offset`.
    pub fn row_coord(&self, j: usize) -> (r: i64)
        requires
            self.wf(),
            j < self.height,
        ensures
            r == self.row_at(j as int),
    {
        j as i64 - (self.height / 2) as i64 + self.y_offset as i64
    }
}

} // verus!
