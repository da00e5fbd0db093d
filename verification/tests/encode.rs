use snes_paint::color::Color;
use snes_paint::encode::decode_palette;
use snes_paint::encode::encode_palette;
use snes_paint::encode::encode_tile;
use snes_paint::encode::write_out;
use snes_paint::encode::write_out_padded;
use snes_paint::error::Error;
use snes_paint::grid::CanvasGrid;
use snes_paint::grid::Grid;
use snes_paint::palette::Palette;

fn palette_of(bpp: usize) -> Palette {
    let mut p = Palette::new();
    p.set_bpp(bpp).unwrap();
    p
}

#[test]
fn max_red_encodes_to_1f_00() {
    let mut p = palette_of(1);
    p.set_color(0, Color { r: 0xF8, g: 0x00, b: 0x00 });
    p.set_color(1, Color { r: 0x00, g: 0x00, b: 0x00 });
    assert_eq!(encode_palette(&p), vec![0x1F, 0x00, 0x00, 0x00]);
}

#[test]
fn palette_bytes_are_little_endian_words_in_index_order() {
    let p = Palette::new();
    assert_eq!(
        encode_palette(&p),
        vec![0xFF, 0x7F, 0x00, 0x00, 0x0E, 0x48, 0x00, 0x55]
    );
}

#[test]
fn palette_encoding_is_a_function_of_the_colors() {
    let p = Palette::new();
    assert_eq!(encode_palette(&p), encode_palette(&p));
    let q = Palette::new();
    assert_eq!(encode_palette(&p), encode_palette(&q));
}

#[test]
fn palette_encoding_does_not_depend_on_bpp() {
    for (bpp, count) in [(1usize, 2usize), (2, 4), (3, 8), (4, 16), (8, 256)] {
        let mut p = palette_of(bpp);
        for i in 0..count {
            p.set_color(i, Color { r: (i % 256) as u8, g: 0, b: 0xFF });
        }
        let bytes = encode_palette(&p);
        assert_eq!(bytes.len(), 2 * count);
        for i in 0..count {
            let word = 0x7C00u16 | ((i % 256) as u16 >> 3);
            assert_eq!(bytes[2 * i], (word & 0xFF) as u8);
            assert_eq!(bytes[2 * i + 1], (word >> 8) as u8);
        }
    }
}

#[test]
fn decoding_recovers_the_five_bit_channels() {
    let mut p = palette_of(4);
    for i in 0..16 {
        p.set_color(i, Color { r: (17 * i) as u8, g: (255 - 13 * i) as u8, b: (i * i) as u8 });
    }
    let decoded = decode_palette(&encode_palette(&p));
    assert_eq!(decoded.len(), 16);
    for i in 0..16 {
        let c = p.get_color(i);
        assert_eq!(decoded[i].r >> 3, c.r >> 3);
        assert_eq!(decoded[i].g >> 3, c.g >> 3);
        assert_eq!(decoded[i].b >> 3, c.b >> 3);
        assert_eq!(decoded[i], Color { r: c.r & 0xF8, g: c.g & 0xF8, b: c.b & 0xF8 });
    }
}

#[test]
fn decoding_reads_little_endian_words() {
    assert_eq!(
        decode_palette(&[0x1F, 0x00, 0x00, 0x7C, 0xE0, 0x03]),
        vec![
            Color { r: 0xF8, g: 0, b: 0 },
            Color { r: 0, g: 0, b: 0xF8 },
            Color { r: 0, g: 0xF8, b: 0 },
        ]
    );
}

#[test]
fn decoding_ignores_a_trailing_byte() {
    assert_eq!(decode_palette(&[]), Vec::<Color>::new());
    assert_eq!(decode_palette(&[0x1F]), Vec::<Color>::new());
    assert_eq!(decode_palette(&[0x1F, 0x00, 0xAA]), vec![Color { r: 0xF8, g: 0, b: 0 }]);
}

#[test]
fn all_zero_grid_encodes_to_sixteen_zero_bytes() {
    let g = CanvasGrid::<8, 8>::new();
    let (vram, pal) = write_out(&g, &Palette::new()).unwrap();
    assert_eq!(vram, vec![0u8; 16]);
    assert_eq!(pal.len(), 8);
}

#[test]
fn all_three_grid_encodes_to_ff_pairs() {
    let mut g = CanvasGrid::<8, 8>::new();
    for row in 0..8 {
        for col in 0..8 {
            g.set(row, col, 3);
        }
    }
    let (vram, _) = write_out(&g, &Palette::new()).unwrap();
    assert_eq!(vram.len(), 16);
    for pair in vram.chunks(2) {
        assert_eq!(pair, [0xFF, 0xFF]);
    }
}

#[test]
fn index_one_fills_plane_zero_and_index_two_plane_one() {
    let mut ones = CanvasGrid::<8, 8>::new();
    let mut twos = CanvasGrid::<8, 8>::new();
    for row in 0..8 {
        for col in 0..8 {
            ones.set(row, col, 1);
            twos.set(row, col, 2);
        }
    }
    let (vram, _) = write_out(&ones, &Palette::new()).unwrap();
    for pair in vram.chunks(2) {
        assert_eq!(pair, [0xFF, 0x00]);
    }
    let (vram, _) = write_out(&twos, &Palette::new()).unwrap();
    for pair in vram.chunks(2) {
        assert_eq!(pair, [0x00, 0xFF]);
    }
}

#[test]
fn first_pixel_of_a_group_is_the_top_bit() {
    let mut g = CanvasGrid::<8, 8>::new();
    g.set(0, 0, 1);
    g.set(7, 0, 2);
    g.set(3, 2, 3);
    g.set(6, 7, 1);
    let (vram, _) = write_out(&g, &Palette::new()).unwrap();
    let mut expected = vec![0u8; 16];
    expected[0] = 0x80;
    expected[1] = 0x01;
    expected[4] = 0x10;
    expected[5] = 0x10;
    expected[14] = 0x02;
    assert_eq!(vram, expected);
}

#[test]
fn only_the_low_two_bits_of_an_index_are_encoded() {
    let mut g = CanvasGrid::<8, 8>::new();
    g.set(0, 0, 4);
    g.set(1, 0, 5);
    g.set(2, 0, 258);
    g.set(3, 0, 7);
    let (vram, _) = write_out(&g, &Palette::new()).unwrap();
    assert_eq!(vram[0], 0b0101_0000);
    assert_eq!(vram[1], 0b0011_0000);
}

#[test]
fn tiles_go_down_each_tile_column_first() {
    let mut g = CanvasGrid::<16, 16>::new();
    g.set(0, 0, 1);
    g.set(0, 8, 2);
    g.set(8, 0, 3);
    g.set(15, 15, 1);
    let (vram, _) = write_out(&g, &Palette::new()).unwrap();
    let mut expected = vec![0u8; 64];
    expected[0] = 0x80;
    expected[17] = 0x80;
    expected[32] = 0x80;
    expected[33] = 0x80;
    expected[62] = 0x01;
    assert_eq!(vram, expected);
}

#[test]
fn padding_follows_every_tile() {
    let mut g = CanvasGrid::<16, 16>::new();
    for row in 0..16 {
        for col in 0..16 {
            g.set(row, col, 3);
        }
    }
    let (vram, pal) = write_out_padded(&g, &Palette::new(), 16).unwrap();
    assert_eq!(vram.len(), 128);
    for (i, byte) in vram.iter().enumerate() {
        let expected = if i % 32 < 16 { 0xFF } else { 0x00 };
        assert_eq!(*byte, expected);
    }
    assert_eq!(pal, encode_palette(&Palette::new()));
}

#[test]
fn padding_of_an_8_by_8_grid() {
    let g = CanvasGrid::<8, 8>::new();
    let (vram, _) = write_out_padded(&g, &Palette::new(), 16).unwrap();
    assert_eq!(vram, vec![0u8; 32]);
    let (vram, _) = write_out_padded(&g, &Palette::new(), 3).unwrap();
    assert_eq!(vram, vec![0u8; 19]);
}

#[test]
fn zero_padding_is_write_out() {
    let mut g = CanvasGrid::<16, 16>::new();
    for i in 0..16 {
        g.set(i, 15 - i, i % 4);
    }
    let p = Palette::new();
    assert_eq!(write_out_padded(&g, &p, 0), write_out(&g, &p));
}

#[test]
fn cells_outside_full_tiles_are_not_encoded() {
    let mut g = CanvasGrid::<12, 9>::new();
    for row in 0..12 {
        for col in 0..9 {
            g.set(row, col, 3);
        }
    }
    let (vram, _) = write_out(&g, &Palette::new()).unwrap();
    assert_eq!(vram, vec![0xFFu8; 16]);
    let small = CanvasGrid::<7, 8>::new();
    let (vram, _) = write_out(&small, &Palette::new()).unwrap();
    assert_eq!(vram, Vec::<u8>::new());
}

#[test]
fn encoding_fails_for_every_depth_but_two() {
    let g = CanvasGrid::<8, 8>::new();
    for bpp in [1usize, 3, 4, 8] {
        let p = palette_of(bpp);
        assert_eq!(write_out(&g, &p), Err(Error::UnsupportedBitDepth));
        assert_eq!(write_out_padded(&g, &p, 16), Err(Error::UnsupportedBitDepth));
    }
    assert!(write_out(&g, &palette_of(2)).is_ok());
}

#[test]
fn encoding_is_deterministic() {
    let mut g = CanvasGrid::<16, 16>::new();
    for i in 0..256 {
        g.set(i % 16, i / 16, (i * 7) % 4);
    }
    let p = Palette::new();
    assert_eq!(write_out(&g, &p), write_out(&g, &p));
}

#[test]
fn encode_tile_appends_to_the_buffer() {
    let mut g = CanvasGrid::<8, 8>::new();
    for row in 0..8 {
        g.set(row, 0, 3);
    }
    let mut out = vec![0xAAu8, 0xBB];
    encode_tile(&g, &mut out);
    let mut expected = vec![0xAAu8, 0xBB, 0xFF, 0xFF];
    expected.extend_from_slice(&[0u8; 14]);
    assert_eq!(out, expected);
}

#[test]
fn encode_through_a_trait_object() {
    let mut g = CanvasGrid::<8, 8>::new();
    g.set(0, 0, 3);
    let boxed: Box<dyn Grid<usize>> = Box::new(g);
    let (vram, _) = write_out(boxed.as_ref(), &Palette::new()).unwrap();
    assert_eq!(vram[0], 0x80);
    assert_eq!(vram[1], 0x80);
}

#[test]
fn pixel_data_matches_the_format_cell_by_cell() {
    let mut g = CanvasGrid::<16, 16>::new();
    let mut seed: usize = 12345;
    for col in 0..16 {
        for row in 0..16 {
            seed = (seed * 1103515245 + 12345) % 2147483648;
            g.set(row, col, (seed >> 16) % 4);
        }
    }
    for padding in [0usize, 16] {
        let (vram, _) = write_out_padded(&g, &Palette::new(), padding).unwrap();
        let mut expected = Vec::new();
        for tile_x in 0..2 {
            for tile_y in 0..2 {
                for line in 0..8 {
                    let mut plane0 = 0u8;
                    let mut plane1 = 0u8;
                    for x in 0..8 {
                        let index = g.get(8 * tile_x + x, 8 * tile_y + line);
                        plane0 |= ((index & 1) as u8) << (7 - x);
                        plane1 |= (((index >> 1) & 1) as u8) << (7 - x);
                    }
                    expected.push(plane0);
                    expected.push(plane1);
                }
                expected.extend(std::iter::repeat(0u8).take(padding));
            }
        }
        assert_eq!(vram, expected);
    }
}
