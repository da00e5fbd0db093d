//! The canvas: a grid of palette indices with its palette, a selected
//! colour and a cursor, and what each input event does to them.

use crate::color::Color;
use crate::encode::palette_bytes;
use crate::encode::vram_bytes;
use crate::encode::write_out;
use crate::encode::write_out_padded;
use crate::error::Error;
use crate::grid::lemma_put_at;
use crate::grid::subgrid;
use crate::grid::CanvasGrid;
use crate::grid::Grid;
use crate::grid::GridModel;
use crate::palette::default_colors;
use crate::palette::Palette;
use vstd::prelude::*;

verus! {

/// What the user can do to a canvas.
#[derive(Debug, Clone, Copy, PartialEq, Eq)]
pub enum CanvasEvent {
    /// The palette swatch of the given index was clicked.
    SelectColor(usize),
    /// The pointer is held down over the given grid position.
    PaintAt(usize, usize),
    /// Select the next colour of the palette.
    PaletteForward,
    /// Select the previous colour of the palette.
    PaletteBackward,
    /// Move the cursor one position across, towards lower `row`.
    CursorLeft,
    /// Move the cursor one position across, towards higher `row`.
    CursorRight,
    /// Move the cursor one position towards lower `col`.
    CursorUp,
    /// Move the cursor one position towards higher `col`.
    CursorDown,
    /// Paint the cell under the cursor.
    CursorPaint,
}

/// The index after `i` among `n` indices, the first one after the last. An
/// index that is not among them moves on by one.
pub open spec fn next_index(i: usize, n: nat) -> usize {
    if i + 1 == n || i == usize::MAX {
        0
    } else {
        (i + 1) as usize
    }
}

/// The index before `i` among `n` indices, the last one before the first.
pub open spec fn prev_index(i: usize, n: nat) -> usize {
    if i == 0 {
        (n - 1) as usize
    } else {
        (i - 1) as usize
    }
}

/// The coordinate after `i` on an axis of length `n`: back to the start
/// from the last coordinate and from any coordinate beyond it.
pub open spec fn next_coordinate(i: usize, n: nat) -> usize {
    if i + 1 >= n {
        0
    } else {
        (i + 1) as usize
    }
}

/// The indices below `size` in ascending order.
pub open spec fn indices(size: nat) -> Seq<usize> {
    Seq::new(size, |i: int| i as usize)
}

/// The test that an index is not the selected one.
pub open spec fn is_not(selected: usize) -> spec_fn(usize) -> bool {
    |i: usize| i != selected
}

/// The order in which the swatches of a palette are drawn: every index but
/// the selected one in ascending order, then the selected one, so that its
/// highlight lies on top of its neighbours.
pub open spec fn draw_order(size: nat, selected: usize) -> Seq<usize> {
    indices(size).filter(is_not(selected)).push(selected)
}

/// A square canvas of 8 by 8 or 16 by 16 cells with its palette.
pub struct Canvas {
    palette: Palette,
    grid: Box<dyn Grid<usize>>,
    cursor: (usize, usize),
    color_idx: usize,
}

impl Canvas {
    /// The palette.
    pub closed spec fn spec_palette(&self) -> Palette {
        self.palette
    }

    /// The dimensions and cells of the grid.
    pub closed spec fn grid_model(&self) -> GridModel<usize> {
        self.grid.model()
    }

    /// The position of the cursor, `row` first.
    pub closed spec fn spec_cursor(&self) -> (usize, usize) {
        self.cursor
    }

    /// The index of the selected colour.
    pub closed spec fn spec_color_idx(&self) -> usize {
        self.color_idx
    }

    /// The palette is well formed and the grid is a square of one of the
    /// two sizes that can be produced.
    pub open spec fn wf(&self) -> bool {
        &&& self.spec_palette().wf()
        &&& self.grid_model().wf()
        &&& self.grid_model().width == self.grid_model().height
        &&& (self.grid_model().width == 8 || self.grid_model().width == 16)
    }

    /// Whether `event` can be handled: painting under the cursor needs the
    /// cursor on the grid.
    pub open spec fn accepts(&self, event: CanvasEvent) -> bool {
        event is CursorPaint ==> self.grid_model().contains(
            self.spec_cursor().0 as int,
            self.spec_cursor().1 as int,
        )
    }

    /// The grid after `event`.
    pub open spec fn grid_after(&self, event: CanvasEvent) -> GridModel<usize> {
        match event {
            CanvasEvent::PaintAt(row, col) => {
                if self.grid_model().contains(row as int, col as int) {
                    self.grid_model().put(row as int, col as int, self.spec_color_idx())
                } else {
                    self.grid_model()
                }
            },
            CanvasEvent::CursorPaint => self.grid_model().put(
                self.spec_cursor().0 as int,
                self.spec_cursor().1 as int,
                self.spec_color_idx(),
            ),
            _ => self.grid_model(),
        }
    }

    /// The selected colour after `event`.
    pub open spec fn color_idx_after(&self, event: CanvasEvent) -> usize {
        match event {
            CanvasEvent::SelectColor(idx) => if idx < self.spec_palette()@.len() {
                idx
            } else {
                self.spec_color_idx()
            },
            CanvasEvent::PaletteForward => next_index(
                self.spec_color_idx(),
                self.spec_palette()@.len(),
            ),
            CanvasEvent::PaletteBackward => prev_index(
                self.spec_color_idx(),
                self.spec_palette()@.len(),
            ),
            _ => self.spec_color_idx(),
        }
    }

    /// The cursor after `event`. It moves within the width of the grid on
    /// both axes: the grid is square.
    pub open spec fn cursor_after(&self, event: CanvasEvent) -> (usize, usize) {
        let (row, col) = self.spec_cursor();
        let n = self.grid_model().width;
        match event {
            CanvasEvent::CursorLeft => (prev_index(row, n), col),
            CanvasEvent::CursorRight => (next_coordinate(row, n), col),
            CanvasEvent::CursorUp => (row, prev_index(col, n)),
            CanvasEvent::CursorDown => (row, next_coordinate(col, n)),
            _ => (row, col),
        }
    }

    /// An 8 by 8 canvas of index 0 with the default palette, its first
    /// colour selected and the cursor at the first position.
    pub fn new() -> (c: Canvas)
        ensures
            c.wf(),
            c.spec_palette().spec_bpp() == 2,
            c.spec_palette()@ == default_colors(),
            c.grid_model() == GridModel::filled(8, 8, 0usize),
            c.spec_cursor() == (0usize, 0usize),
            c.spec_color_idx() == 0,
    {
        let grid: CanvasGrid<8, 8> = CanvasGrid::new();
        Canvas { palette: Palette::new(), grid: Box::new(grid), cursor: (0, 0), color_idx: 0 }
    }

    /// Resizes the grid to `width` by `height`.
    ///
    /// Sizes 8 by 8 and 16 by 16 succeed: every position that the old and the
    /// new grid share keeps its cell and every other cell holds index 0. Sizes
    /// 32 by 32 and 64 by 64 cannot be produced yet, and every other size is
    /// invalid; a refused resize changes nothing.
    pub fn set_size(&mut self, width: usize, height: usize) -> (r: Result<(), Error>)
        requires
            old(self).wf(),
        ensures
            final(self).wf(),
            final(self).spec_palette() == old(self).spec_palette(),
            final(self).spec_cursor() == old(self).spec_cursor(),
            final(self).spec_color_idx() == old(self).spec_color_idx(),
            r is Ok <==> (width == 8 && height == 8) || (width == 16 && height == 16),
            r is Err ==> final(self).grid_model() == old(self).grid_model(),
            r is Err ==> r->Err_0 == (if (width == 32 && height == 32) || (width == 64 && height
                == 64) {
                Error::UnsupportedGeometry
            } else {
                Error::InvalidCanvasSize(width, height)
            }),
            r is Ok ==> final(self).grid_model().width == width,
            r is Ok ==> final(self).grid_model().height == height,
            r is Ok ==> forall|row: int, col: int|
                0 <= row < width && 0 <= col < height ==> #[trigger] final(self).grid_model().at(
                    row,
                    col,
                ) == (if old(self).grid_model().contains(row, col) {
                    old(self).grid_model().at(row, col)
                } else {
                    0
                }),
            width == old(self).grid_model().width && height == old(self).grid_model().height
                ==> final(self).grid_model() == old(self).grid_model(),
    {
        let old_width = self.grid.width();
        let old_height = self.grid.height();
        if width == old_width && height == old_height {
            return Ok(());
        }
        let copy_width = if old_width < width {
            old_width
        } else {
            width
        };
        let copy_height = if old_height < height {
            old_height
        } else {
            height
        };
        if width == 8 && height == 8 {
            let grid = subgrid::<8, 8>(&*self.grid, (0, copy_width), (0, copy_height));
            self.grid = Box::new(grid);
            Ok(())
        } else if width == 16 && height == 16 {
            let grid = subgrid::<16, 16>(&*self.grid, (0, copy_width), (0, copy_height));
            self.grid = Box::new(grid);
            Ok(())
        } else if (width == 32 && height == 32) || (width == 64 && height == 64) {
            Err(Error::UnsupportedGeometry)
        } else {
            Err(Error::InvalidCanvasSize(width, height))
        }
    }

    /// The palette.
    pub fn palette(&self) -> (p: &Palette)
        ensures
            *p == self.spec_palette(),
    {
        &self.palette
    }

    /// A handle on the palette: what is done through it is the only change
    /// to the canvas.
    pub fn get_palette_mut(&mut self) -> (p: &mut Palette)
        ensures
            *p == old(self).spec_palette(),
            final(self).spec_palette() == *final(p),
            final(self).grid_model() == old(self).grid_model(),
            final(self).spec_cursor() == old(self).spec_cursor(),
            final(self).spec_color_idx() == old(self).spec_color_idx(),
    {
        &mut self.palette
    }

    /// The index of the selected colour.
    pub fn color_idx(&self) -> (idx: usize)
        ensures
            idx == self.spec_color_idx(),
    {
        self.color_idx
    }

    /// The position of the cursor.
    pub fn cursor(&self) -> (at: (usize, usize))
        ensures
            at == self.spec_cursor(),
    {
        self.cursor
    }

    /// The width of the grid.
    pub fn width(&self) -> (w: usize)
        ensures
            w == self.grid_model().width,
    {
        self.grid.width()
    }

    /// The height of the grid.
    pub fn height(&self) -> (h: usize)
        ensures
            h == self.grid_model().height,
    {
        self.grid.height()
    }

    /// The palette index stored at `(row, col)`.
    pub fn get_pixel(&self, row: usize, col: usize) -> (idx: usize)
        requires
            self.wf(),
            self.grid_model().contains(row as int, col as int),
        ensures
            idx == self.grid_model().at(row as int, col as int),
    {
        self.grid.get(row, col)
    }

    /// The colour of the cell at `(row, col)`.
    pub fn get_pixel_color(&self, row: usize, col: usize) -> (c: Color)
        requires
            self.wf(),
            self.grid_model().contains(row as int, col as int),
            self.grid_model().at(row as int, col as int) < self.spec_palette()@.len(),
        ensures
            c == self.spec_palette()@[self.grid_model().at(row as int, col as int) as int],
    {
        self.palette.get_color(self.grid.get(row, col))
    }

    /// The order in which to draw the swatches of the palette.
    pub fn palette_draw_order(&self) -> (order: Vec<usize>)
        ensures
            order@ == draw_order(self.spec_palette()@.len(), self.spec_color_idx()),
    {
        let size = self.palette.size();
        let mut order: Vec<usize> = Vec::new();
        let mut i: usize = 0;
        assert(indices(0).filter(is_not(self.color_idx)) =~= Seq::<usize>::empty());
        while i < size
            invariant
                i <= size,
                order@ == indices(i as nat).filter(is_not(self.color_idx)),
            decreases size - i,
        {
            if i != self.color_idx {
                order.push(i);
            }
            proof {
                let longer = indices((i + 1) as nat);
                assert(longer.drop_last() =~= indices(i as nat));
                assert(longer.last() == i);
                reveal(Seq::filter);
            }
            i += 1;
        }
        order.push(self.color_idx);
        order
    }

    /// Applies an input event.
    pub fn handle(&mut self, event: CanvasEvent)
        requires
            old(self).wf(),
            old(self).accepts(event),
        ensures
            final(self).wf(),
            final(self).spec_palette() == old(self).spec_palette(),
            final(self).grid_model() == old(self).grid_after(event),
            final(self).spec_color_idx() == old(self).color_idx_after(event),
            final(self).spec_cursor() == old(self).cursor_after(event),
    {
        proof {
            self.palette.lemma_size_bounds();
        }
        let size = self.palette.size();
        let width = self.grid.width();
        let height = self.grid.height();
        match event {
            CanvasEvent::SelectColor(idx) => {
                if idx < size {
                    self.color_idx = idx;
                }
            },
            CanvasEvent::PaintAt(row, col) => {
                if row < width && col < height {
                    self.grid.set(row, col, self.color_idx);
                    proof {
                        lemma_put_at(
                            old(self).grid_model(),
                            row as int,
                            col as int,
                            self.color_idx,
                        );
                    }
                }
            },
            CanvasEvent::PaletteForward => {
                self.color_idx =
                match self.color_idx.checked_add(1) {
                    Some(next) => if next == size {
                        0
                    } else {
                        next
                    },
                    None => 0,
                };
            },
            CanvasEvent::PaletteBackward => {
                if self.color_idx == 0 {
                    self.color_idx = size;
                }
                self.color_idx -= 1;
            },
            CanvasEvent::CursorRight => {
                self.cursor.0 =
                match self.cursor.0.checked_add(1) {
                    Some(next) => if next >= width {
                        0
                    } else {
                        next
                    },
                    None => 0,
                };
            },
            CanvasEvent::CursorLeft => {
                if self.cursor.0 == 0 {
                    self.cursor.0 = width;
                }
                self.cursor.0 -= 1;
            },
            CanvasEvent::CursorUp => {
                if self.cursor.1 == 0 {
                    self.cursor.1 = width;
                }
                self.cursor.1 -= 1;
            },
            CanvasEvent::CursorDown => {
                self.cursor.1 =
                match self.cursor.1.checked_add(1) {
                    Some(next) => if next >= width {
                        0
                    } else {
                        next
                    },
                    None => 0,
                };
            },
            CanvasEvent::CursorPaint => {
                self.grid.set(self.cursor.0, self.cursor.1, self.color_idx);
                proof {
                    lemma_put_at(
                        old(self).grid_model(),
                        self.cursor.0 as int,
                        self.cursor.1 as int,
                        self.color_idx,
                    );
                }
            },
        }
    }

    /// The pixel data and the palette data of the canvas.
    ///
    /// Only a canvas with a 2-bpp palette can be exported.
    pub fn serialize(&self) -> (r: Result<(Vec<u8>, Vec<u8>), Error>)
        requires
            self.wf(),
        ensures
            r is Ok <==> self.spec_palette().spec_bpp() == 2,
            r is Err ==> r->Err_0 == Error::UnsupportedBitDepth,
            r is Ok ==> r->Ok_0.0@ == vram_bytes(self.grid_model(), 0) && r->Ok_0.1@
                == palette_bytes(self.spec_palette()@),
    {
        write_out(&*self.grid, &self.palette)
    }

    /// The pixel data of the canvas with `padding` zero bytes after the
    /// bitplane bytes of every tile, and its palette data.
    ///
    /// Only a canvas with a 2-bpp palette can be exported.
    pub fn serialize_padded(&self, padding: usize) -> (r: Result<(Vec<u8>, Vec<u8>), Error>)
        requires
            self.wf(),
        ensures
            r is Ok <==> self.spec_palette().spec_bpp() == 2,
            r is Err ==> r->Err_0 == Error::UnsupportedBitDepth,
            r is Ok ==> r->Ok_0.0@ == vram_bytes(self.grid_model(), padding as nat) && r->Ok_0.1@
                == palette_bytes(self.spec_palette()@),
    {
        write_out_padded(&*self.grid, &self.palette, padding)
    }
}

impl Default for Canvas {
    fn default() -> (c: Canvas)
        ensures
            c.wf(),
            c.spec_palette().spec_bpp() == 2,
            c.spec_palette()@ == default_colors(),
            c.grid_model() == GridModel::filled(8, 8, 0usize),
            c.spec_cursor() == (0usize, 0usize),
            c.spec_color_idx() == 0,
    {
        Canvas::new()
    }
}

} // verus!
