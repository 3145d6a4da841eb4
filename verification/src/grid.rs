use vstd::prelude::*;
use crate::errors::CoreError;

verus! {

/// Largest grid dimension a session may be built with.
pub const MAX_GRID: u32 = 1024;

/// One cell of the occupancy map.
#[derive(Clone, Copy, Debug, PartialEq, Eq, Structural)]
pub enum Cell {
    Open,
    Blocked,
}

/// An immutable 2D occupancy map: `width * height` cells, row-major.
pub struct Grid {
    pub width: u32,
    pub height: u32,
    pub cells: Vec<Cell>,
}

impl Grid {
    /// The dimensions a grid may be constructed with.
    pub open spec fn dims_ok(width: u32, height: u32, len: int) -> bool {
        1 <= width <= MAX_GRID && 1 <= height <= MAX_GRID && len == width * height
    }

    /// Structural invariant: positive bounded dimensions and a full cell array.
    pub open spec fn wf(self) -> bool {
        Self::dims_ok(self.width, self.height, self.cells@.len() as int)
    }

    /// The cell at column `x`, row `y` of a well-formed grid.
    pub open spec fn cell_spec(self, x: int, y: int) -> Cell {
        self.cells@[y * self.width + x]
    }

    pub open spec fn in_grid(self, x: int, y: int) -> bool {
        0 <= x < self.width && 0 <= y < self.height
    }

    /// Build a grid; rejects empty or oversized dimensions and a cell array
    /// whose length is not `width * height`.
    pub fn new(width: u32, height: u32, cells: Vec<Cell>) -> (r: Result<Grid, CoreError>)
        ensures
            Self::dims_ok(width, height, cells@.len() as int) <==> r is Ok,
            r matches Ok(g) ==> g.width == width && g.height == height && g.cells@ == cells@
                && g.wf(),
            r matches Err(e) ==> e is InvalidConfiguration,
    {
        if 1 <= width && width <= MAX_GRID && 1 <= height && height <= MAX_GRID {
            proof {
                assert((width as int) * (height as int) <= 1048576) by (nonlinear_arith)
                    requires (width as int) <= 1024 && (height as int) <= 1024;
            }
            if cells.len() as u64 == (width as u64) * (height as u64) {
                Ok(Grid { width, height, cells })
            } else {
                Err(CoreError::InvalidConfiguration)
            }
        } else {
            Err(CoreError::InvalidConfiguration)
        }
    }

    pub fn width(&self) -> (r: u32)
        ensures
            r == self.width,
    {
        self.width
    }

    pub fn height(&self) -> (r: u32)
        ensures
            r == self.height,
    {
        self.height
    }

    /// The cell at `(x, y)`; callers must have bounds-checked the indices.
    pub fn cell_at(&self, x: u32, y: u32) -> (r: Cell)
        requires
            self.wf(),
            self.in_grid(x as int, y as int),
        ensures
            r == self.cell_spec(x as int, y as int),
    {
        proof {
            assert((y as int) * (self.width as int) + (x as int) < (self.width as int) * (
            self.height as int)) by (nonlinear_arith)
                requires
                    0 <= (x as int) < (self.width as int),
                    0 <= (y as int) < (self.height as int);
            assert((self.width as int) * (self.height as int) <= 1048576) by (nonlinear_arith)
                requires (self.width as int) <= 1024 && (self.height as int) <= 1024;
        }
        self.cells[(y as usize) * (self.width as usize) + (x as usize)]
    }

    /// Bounds-checked cell query: `Err(OutOfBounds)` exactly when an index
    /// exceeds the dimensions.
    pub fn try_cell_at(&self, x: u32, y: u32) -> (r: Result<Cell, CoreError>)
        requires
            self.wf(),
        ensures
            self.in_grid(x as int, y as int) <==> r is Ok,
            r matches Ok(c) ==> c == self.cell_spec(x as int, y as int),
            r matches Err(e) ==> e is OutOfBounds,
    {
        if x < self.width && y < self.height {
            Ok(self.cell_at(x, y))
        } else {
            Err(CoreError::OutOfBounds)
        }
    }

    /// Whether the cell at `(x, y)` is blocked.
    pub open spec fn blocked_spec(self, x: int, y: int) -> bool {
        self.cell_spec(x, y) is Blocked
    }
}

} // verus!
