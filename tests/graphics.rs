use gbc_core::graphics::{Graphics, FRAMEBUFFER_SIZE, SCREEN_WIDTH};
use gbc_core::mmu::MMU;

fn pixel(g: &Graphics, x: u32, y: u32) -> (u8, u8, u8) {
    let i = ((y * SCREEN_WIDTH + x) * 3) as usize;
    (g.framebuffer[i], g.framebuffer[i + 1], g.framebuffer[i + 2])
}

#[test]
fn new_frame_is_black() {
    let g = Graphics::new();
    assert_eq!(g.framebuffer.len(), FRAMEBUFFER_SIZE);
    assert!(g.framebuffer.iter().all(|b| *b == 0));
}

#[test]
fn set_pixel_writes_rgb() {
    let mut g = Graphics::new();
    g.set_pixel(10, 10, 255, 0, 0);
    g.set_pixel(159, 143, 1, 2, 3);
    assert_eq!(pixel(&g, 10, 10), (255, 0, 0));
    assert_eq!(pixel(&g, 159, 143), (1, 2, 3));
    assert_eq!(pixel(&g, 11, 10), (0, 0, 0));
}

#[test]
fn palette_shades() {
    let g = Graphics::new();
    assert_eq!(g.get_color_from_palette(0), (255, 255, 255));
    assert_eq!(g.get_color_from_palette(1), (192, 192, 192));
    assert_eq!(g.get_color_from_palette(2), (96, 96, 96));
    assert_eq!(g.get_color_from_palette(3), (0, 0, 0));
    assert_eq!(g.get_color_from_palette(9), (255, 255, 255));
}

#[test]
fn render_tile_decodes_bit_planes() {
    let mut g = Graphics::new();
    let mut tile = [0u8; 16];
    // Row 0: pixel 0 has both bits (3), pixel 1 low bit (1), pixel 2 high bit (2).
    tile[0] = 0b1100_0000;
    tile[1] = 0b1010_0000;
    g.render_tile(tile, 8, 16);
    assert_eq!(pixel(&g, 8, 16), (0, 0, 0));
    assert_eq!(pixel(&g, 9, 16), (192, 192, 192));
    assert_eq!(pixel(&g, 10, 16), (96, 96, 96));
    assert_eq!(pixel(&g, 11, 16), (255, 255, 255));
    assert_eq!(pixel(&g, 15, 23), (255, 255, 255));
    assert_eq!(pixel(&g, 16, 16), (0, 0, 0));
    assert_eq!(pixel(&g, 7, 16), (0, 0, 0));
}

#[test]
fn render_tile_map_uses_map_and_tile_data() {
    let mut mmu = MMU::new();
    // Tile 1 is solid colour 3; the map puts it at tile column 2, row 1.
    for i in 0..16u16 {
        mmu.write_byte(0x8000 + 16 + i, 0xFF);
    }
    mmu.write_byte(0x9800 + 32 + 2, 1);
    let mut g = Graphics::new();
    g.render_tile_map(&mmu);
    assert_eq!(pixel(&g, 16, 8), (0, 0, 0));
    assert_eq!(pixel(&g, 23, 15), (0, 0, 0));
    assert_eq!(pixel(&g, 24, 8), (255, 255, 255));
    assert_eq!(pixel(&g, 0, 0), (255, 255, 255));
    assert_eq!(pixel(&g, 159, 143), (255, 255, 255));
}
