use vstd::prelude::*;

use crate::mmu::MMU;

verus! {

pub const SCREEN_WIDTH: u32 = 160;

pub const SCREEN_HEIGHT: u32 = 144;

/// Bytes in the framebuffer: three (red, green, blue) per pixel, row by row.
pub const FRAMEBUFFER_SIZE: usize = 69120;

/// Whether `(x, y)` is a pixel of the screen.
pub open spec fn on_screen(x: int, y: int) -> bool {
    0 <= x < SCREEN_WIDTH && 0 <= y < SCREEN_HEIGHT
}

/// Offset in the framebuffer of the red byte of pixel `(x, y)`.
pub open spec fn pixel_offset(x: int, y: int) -> int {
    (y * SCREEN_WIDTH + x) * 3
}

/// The colour of each of the four shades of the palette; any other value is
/// drawn white.
pub open spec fn shade(color_id: u8) -> (u8, u8, u8) {
    if color_id == 1 {
        (192, 192, 192)
    } else if color_id == 2 {
        (96, 96, 96)
    } else if color_id == 3 {
        (0, 0, 0)
    } else {
        (255, 255, 255)
    }
}

/// The colour number (0 to 3) of pixel `(tx, ty)` of an 8x8 tile in the
/// two-bytes-per-row format: the low bit from the row's first byte, the high
/// bit from its second, leftmost pixel in bit 7.
pub open spec fn color_id(tile: Seq<u8>, tx: int, ty: int) -> u8 {
    let bit = (7 - tx) as u8;
    ((tile[2 * ty] >> bit) & 1u8) | (((tile[2 * ty + 1] >> bit) & 1u8) << 1u8)
}

/// The 16 bytes of the tile that the background map names for tile column
/// `tx` and row `ty`.
pub open spec fn map_tile(m: Seq<u8>, tx: int, ty: int) -> Seq<u8> {
    let start = 0x8000 + 16 * m[0x9800 + 32 * ty + tx];
    m.subrange(start, start + 16)
}

/// Pixels at different places of the screen use disjoint framebuffer bytes.
proof fn lemma_offsets_apart(x: int, y: int, qx: int, qy: int)
    requires
        on_screen(x, y),
        on_screen(qx, qy),
        x != qx || y != qy,
    ensures
        pixel_offset(x, y) + 3 <= pixel_offset(qx, qy) || pixel_offset(qx, qy) + 3 <= pixel_offset(
            x,
            y,
        ),
{
    if y == qy {
        assert(pixel_offset(x, y) - pixel_offset(qx, qy) == 3 * (x - qx)) by (nonlinear_arith)
            requires
                y == qy,
        ;
    } else if y < qy {
        assert(pixel_offset(x, y) + 3 <= pixel_offset(qx, qy)) by (nonlinear_arith)
            requires
                y < qy,
                0 <= x < 160,
                0 <= qx < 160,
        ;
    } else {
        assert(pixel_offset(qx, qy) + 3 <= pixel_offset(x, y)) by (nonlinear_arith)
            requires
                qy < y,
                0 <= x < 160,
                0 <= qx < 160,
        ;
    }
}

/// Every pixel of the screen lies inside the framebuffer.
proof fn lemma_offset_in_range(x: int, y: int)
    requires
        on_screen(x, y),
    ensures
        0 <= pixel_offset(x, y),
        pixel_offset(x, y) + 3 <= FRAMEBUFFER_SIZE,
{
    assert(0 <= y * 160 <= 143 * 160) by (nonlinear_arith)
        requires
            0 <= y < 144,
    ;
}

/// The frame that the display shows, held as RGB bytes.
pub struct Graphics {
    pub framebuffer: Vec<u8>,
}

impl Graphics {
    pub open spec fn wf(&self) -> bool {
        self.framebuffer@.len() == FRAMEBUFFER_SIZE
    }

    /// The colour of pixel `(x, y)`.
    pub open spec fn pixel(&self, x: int, y: int) -> (u8, u8, u8) {
        let i = pixel_offset(x, y);
        (self.framebuffer@[i], self.framebuffer@[i + 1], self.framebuffer@[i + 2])
    }

    /// A black frame.
    pub fn new() -> (r: Self)
        ensures
            r.wf(),
            forall|x: int, y: int| on_screen(x, y) ==> #[trigger] r.pixel(x, y) == (0u8, 0u8, 0u8),
    {
        let g = Graphics { framebuffer: vec![0u8; FRAMEBUFFER_SIZE] };
        assert forall|x: int, y: int| on_screen(x, y) implies #[trigger] g.pixel(x, y) == (
            0u8,
            0u8,
            0u8,
        ) by {
            lemma_offset_in_range(x, y);
        }
        g
    }

    /// Sets the three colour bytes of the pixel whose index in the frame,
    /// row by row, is `y * 160 + x`.
    pub fn set_pixel(&mut self, x: u32, y: u32, r: u8, g: u8, b: u8)
        requires
            old(self).wf(),
            y * SCREEN_WIDTH + x < SCREEN_WIDTH * SCREEN_HEIGHT,
        ensures
            final(self).wf(),
            final(self).framebuffer@ == old(self).framebuffer@.update(
                pixel_offset(x as int, y as int),
                r,
            ).update(pixel_offset(x as int, y as int) + 1, g).update(
                pixel_offset(x as int, y as int) + 2,
                b,
            ),
            on_screen(x as int, y as int) ==> forall|qx: int, qy: int|
                on_screen(qx, qy) ==> #[trigger] final(self).pixel(qx, qy) == if qx == x && qy
                    == y {
                    (r, g, b)
                } else {
                    old(self).pixel(qx, qy)
                },
    {
        assert(y * 160 <= 23040) by (nonlinear_arith)
            requires
                y * 160 + x < 23040,
                0 <= x,
        ;
        let idx = ((y * SCREEN_WIDTH + x) * 3) as usize;
        self.framebuffer.set(idx, r);
        self.framebuffer.set(idx + 1, g);
        self.framebuffer.set(idx + 2, b);
        proof {
            if on_screen(x as int, y as int) {
                assert forall|qx: int, qy: int| on_screen(qx, qy) implies #[trigger] self.pixel(
                    qx,
                    qy,
                ) == if qx == x && qy == y {
                    (r, g, b)
                } else {
                    old(self).pixel(qx, qy)
                } by {
                    lemma_offset_in_range(qx, qy);
                    if qx != x || qy != y {
                        lemma_offsets_apart(x as int, y as int, qx, qy);
                    }
                }
            }
        }
    }

    /// The colour of a palette entry.
    pub fn get_color_from_palette(&self, color_id: u8) -> (r: (u8, u8, u8))
        ensures
            r == shade(color_id),
    {
        match color_id {
            1 => (192, 192, 192),
            2 => (96, 96, 96),
            3 => (0, 0, 0),
            _ => (255, 255, 255),
        }
    }

    /// Draws an 8x8 tile with its top-left corner at `(x, y)`.
    pub fn render_tile(&mut self, tile_data: [u8; 16], x: u32, y: u32)
        requires
            old(self).wf(),
            x + 8 <= SCREEN_WIDTH,
            y + 8 <= SCREEN_HEIGHT,
        ensures
            final(self).wf(),
            forall|qx: int, qy: int|
                on_screen(qx, qy) ==> #[trigger] final(self).pixel(qx, qy) == if x <= qx < x + 8 && y
                    <= qy < y + 8 {
                    shade(color_id(tile_data@, qx - x, qy - y))
                } else {
                    old(self).pixel(qx, qy)
                },
    {
        let mut ty: usize = 0;
        while ty < 8
            invariant
                self.wf(),
                ty <= 8,
                x + 8 <= SCREEN_WIDTH,
                y + 8 <= SCREEN_HEIGHT,
                forall|qx: int, qy: int|
                    on_screen(qx, qy) ==> #[trigger] self.pixel(qx, qy) == if x <= qx < x + 8 && y
                        <= qy < y + ty {
                        shade(color_id(tile_data@, qx - x, qy - y))
                    } else {
                        old(self).pixel(qx, qy)
                    },
            decreases 8 - ty,
        {
            let byte1 = tile_data[ty * 2];
            let byte2 = tile_data[ty * 2 + 1];
            let mut tx: usize = 0;
            while tx < 8
                invariant
                    self.wf(),
                    ty < 8,
                    tx <= 8,
                    x + 8 <= SCREEN_WIDTH,
                    y + 8 <= SCREEN_HEIGHT,
                    byte1 == tile_data@[2 * ty],
                    byte2 == tile_data@[2 * ty + 1],
                    forall|qx: int, qy: int|
                        on_screen(qx, qy) ==> #[trigger] self.pixel(qx, qy) == if x <= qx < x + 8
                            && (y <= qy < y + ty || (qy == y + ty && qx < x + tx)) {
                            shade(color_id(tile_data@, qx - x, qy - y))
                        } else {
                            old(self).pixel(qx, qy)
                        },
                decreases 8 - tx,
            {
                let color_bit = (7 - tx) as u8;
                let color_id = ((byte1 >> color_bit) & 1) | (((byte2 >> color_bit) & 1) << 1);
                let (r, g, b) = self.get_color_from_palette(color_id);
                self.set_pixel(x + tx as u32, y + ty as u32, r, g, b);
                tx = tx + 1;
            }
            ty = ty + 1;
        }
    }

    /// Draws the top-left 20x18 tiles of the background map: every pixel of
    /// the screen takes the shade of its place in the tile that the map names.
    pub fn render_tile_map(&mut self, mmu: &MMU)
        requires
            old(self).wf(),
            mmu.wf(),
        ensures
            final(self).wf(),
            forall|qx: int, qy: int|
                on_screen(qx, qy) ==> #[trigger] final(self).pixel(qx, qy) == shade(
                    color_id(map_tile(mmu@, qx / 8, qy / 8), qx % 8, qy % 8),
                ),
    {
        let mut tile_y: u16 = 0;
        while tile_y < 18
            invariant
                self.wf(),
                mmu.wf(),
                tile_y <= 18,
                forall|qx: int, qy: int|
                    on_screen(qx, qy) && qy / 8 < tile_y ==> #[trigger] self.pixel(qx, qy) == shade(
                        color_id(map_tile(mmu@, qx / 8, qy / 8), qx % 8, qy % 8),
                    ),
            decreases 18 - tile_y,
        {
            let mut tile_x: u16 = 0;
            while tile_x < 20
                invariant
                    self.wf(),
                    mmu.wf(),
                    tile_y < 18,
                    tile_x <= 20,
                    forall|qx: int, qy: int|
                        on_screen(qx, qy) && (qy / 8 < tile_y || (qy / 8 == tile_y && qx / 8
                            < tile_x)) ==> #[trigger] self.pixel(qx, qy) == shade(
                            color_id(map_tile(mmu@, qx / 8, qy / 8), qx % 8, qy % 8),
                        ),
                decreases 20 - tile_x,
            {
                let tile_index = mmu.get_tile_index_from_map(tile_x, tile_y);
                let tile_data = mmu.get_tile_data(tile_index);
                let ghost before = *self;
                self.render_tile(tile_data, (tile_x * 8) as u32, (tile_y * 8) as u32);
                assert forall|qx: int, qy: int|
                    on_screen(qx, qy) && (qy / 8 < tile_y || (qy / 8 == tile_y && qx / 8 < tile_x
                        + 1)) implies #[trigger] self.pixel(qx, qy) == shade(
                    color_id(map_tile(mmu@, qx / 8, qy / 8), qx % 8, qy % 8),
                ) by {
                    let inside = tile_x * 8 <= qx < tile_x * 8 + 8 && tile_y * 8 <= qy < tile_y * 8
                        + 8;
                    assert(inside <==> (qx / 8 == tile_x && qy / 8 == tile_y));
                    if inside {
                        assert(qx - tile_x * 8 == qx % 8);
                        assert(qy - tile_y * 8 == qy % 8);
                    } else {
                        assert(self.pixel(qx, qy) == before.pixel(qx, qy));
                    }
                }
                tile_x = tile_x + 1;
            }
            tile_y = tile_y + 1;
        }
    }
}

} // verus!
