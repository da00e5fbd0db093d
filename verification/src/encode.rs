//! The export format: planar two-bitplane tile data for the pixels and
//! little-endian BGR555 words for the palette.

use crate::color::lemma_bgr555_bound;
use crate::color::lemma_bgr555_round_trip;
use crate::color::Color;
use crate::error::Error;
use crate::grid::lemma_grid_ext;
use crate::grid::lemma_linear_split;
use crate::grid::subgrid;
use crate::grid::Grid;
use crate::grid::GridModel;
use crate::palette::Palette;
use vstd::arithmetic::power2::lemma2_to64;
use vstd::arithmetic::power2::lemma_pow2_strictly_increases;
use vstd::arithmetic::power2::lemma_pow2_unfold;
use vstd::arithmetic::power2::pow2;
use vstd::prelude::*;

verus! {

/// Bit `plane` of a palette index.
pub open spec fn index_bit(v: usize, plane: nat) -> nat {
    (v as nat / pow2(plane)) % 2
}

/// One byte of one bitplane: bit `plane` of each of eight palette indices,
/// the first index in the most significant bit and the last in the least.
pub open spec fn plane_byte(group: Seq<usize>, plane: nat) -> nat {
    128 * index_bit(group[0], plane) + 64 * index_bit(group[1], plane) + 32 * index_bit(
        group[2],
        plane,
    ) + 16 * index_bit(group[3], plane) + 8 * index_bit(group[4], plane) + 4 * index_bit(
        group[5],
        plane,
    ) + 2 * index_bit(group[6], plane) + index_bit(group[7], plane)
}

/// The `chunk`-th group of eight cells of a linear sequence of cells.
pub open spec fn group_of(cells: Seq<usize>, chunk: int) -> Seq<usize> {
    cells.subrange(8 * chunk, 8 * chunk + 8)
}

/// Byte `n` of the bitplane data of a sequence of cells: the bytes come in
/// pairs, one pair for each group of eight cells, plane 0 before plane 1.
pub open spec fn plane_byte_at(cells: Seq<usize>, n: int) -> u8 {
    plane_byte(group_of(cells, n / 2), (n % 2) as nat) as u8
}

/// The bitplane data of the first `chunks` groups of eight cells.
pub open spec fn plane_bytes_upto(cells: Seq<usize>, chunks: nat) -> Seq<u8> {
    Seq::new(2 * chunks, |n: int| plane_byte_at(cells, n))
}

/// The bitplane data of a sequence of cells: two bytes for each full group
/// of eight cells, 16 bytes for the 64 cells of a tile.
pub open spec fn plane_bytes(cells: Seq<usize>) -> Seq<u8> {
    plane_bytes_upto(cells, cells.len() / 8)
}

/// The tile at tile position `(tx, ty)`: the 8 by 8 rectangle of the grid
/// whose position `(0, 0)` is `(8 * tx, 8 * ty)`.
pub open spec fn tile_of(m: GridModel<usize>, tx: int, ty: int) -> GridModel<usize> {
    GridModel {
        width: 8,
        height: 8,
        cells: Seq::new(64, |i: int| m.at(8 * tx + i % 8, 8 * ty + i / 8)),
    }
}

/// `n` zero bytes.
pub open spec fn zeros(n: nat) -> Seq<u8> {
    Seq::new(n, |i: int| 0u8)
}

/// What the `t`-th tile contributes to the pixel data: its bitplane bytes,
/// then `padding` zero bytes. Tiles are numbered down each column of tiles,
/// one column after the other.
pub open spec fn tile_block(m: GridModel<usize>, padding: nat, t: int) -> Seq<u8> {
    let down = (m.height / 8) as int;
    plane_bytes(tile_of(m, t / down, t % down).cells) + zeros(padding)
}

/// The contributions of the first `n` tiles.
pub open spec fn tile_blocks(m: GridModel<usize>, padding: nat, n: nat) -> Seq<Seq<u8>> {
    Seq::new(n, |t: int| tile_block(m, padding, t))
}

/// The pixel data of a grid: the contributions of all its full tiles, one
/// after the other.
pub open spec fn vram_bytes(m: GridModel<usize>, padding: nat) -> Seq<u8> {
    tile_blocks(m, padding, (m.width / 8) * (m.height / 8)).flatten()
}

/// The palette data of a colour table: for each colour in index order the
/// low byte of its 15-bit word, then the high byte.
pub open spec fn palette_bytes(colors: Seq<Color>) -> Seq<u8> {
    Seq::new(
        2 * colors.len(),
        |i: int|
            if i % 2 == 0 {
                (colors[i / 2].bgr555() % 256) as u8
            } else {
                (colors[i / 2].bgr555() / 256) as u8
            },
    )
}

/// The `k`-th little-endian 16-bit word of palette data.
pub open spec fn palette_word(bytes: Seq<u8>, k: int) -> nat {
    (bytes[2 * k] + 256 * bytes[2 * k + 1]) as nat
}

/// The colours that palette data stands for, one for each full word.
pub open spec fn decoded_colors(bytes: Seq<u8>) -> Seq<Color> {
    Seq::new(bytes.len() / 2, |k: int| Color::of_bgr555(palette_word(bytes, k)))
}

/// The shift-and-or accumulation of the first `n` bits of a group.
spec fn plane_prefix(group: Seq<usize>, plane: nat, n: nat) -> nat
    decreases n,
{
    if n == 0 {
        0
    } else {
        2 * plane_prefix(group, plane, (n - 1) as nat) + index_bit(group[n - 1], plane)
    }
}

proof fn lemma_plane_prefix_bound(group: Seq<usize>, plane: nat, n: nat)
    ensures
        plane_prefix(group, plane, n) < pow2(n),
    decreases n,
{
    if n == 0 {
        lemma2_to64();
    } else {
        lemma_plane_prefix_bound(group, plane, (n - 1) as nat);
        lemma_pow2_unfold(n);
    }
}

proof fn lemma_plane_prefix_full(group: Seq<usize>, plane: nat)
    ensures
        plane_prefix(group, plane, 8) == plane_byte(group, plane),
        plane_byte(group, plane) < 256,
{
    reveal_with_fuel(plane_prefix, 9);
}

proof fn lemma_blocks_len(m: GridModel<usize>, padding: nat, n: nat)
    ensures
        tile_blocks(m, padding, n).flatten().len() == n * (16 + padding),
    decreases n,
{
    if n == 0 {
        assert(tile_blocks(m, padding, 0) =~= Seq::<Seq<u8>>::empty());
    } else {
        let before = tile_blocks(m, padding, (n - 1) as nat);
        let block = tile_block(m, padding, n - 1);
        lemma_blocks_len(m, padding, (n - 1) as nat);
        assert(tile_blocks(m, padding, n) =~= before.push(block));
        before.lemma_flatten_push(block);
        assert((n - 1) * (16 + padding) + (16 + padding) == n * (16 + padding))
            by (nonlinear_arith);
    }
}

proof fn lemma_blocks_byte(m: GridModel<usize>, padding: nat, n: nat, t: int, o: int)
    requires
        0 <= t < n,
        0 <= o < 16 + padding,
    ensures
        0 <= t * (16 + padding) + o < tile_blocks(m, padding, n).flatten().len(),
        tile_blocks(m, padding, n).flatten()[t * (16 + padding) + o] == tile_block(
            m,
            padding,
            t,
        )[o],
    decreases n,
{
    let stride = (16 + padding) as int;
    let before = tile_blocks(m, padding, (n - 1) as nat);
    let block = tile_block(m, padding, n - 1);
    lemma_blocks_len(m, padding, (n - 1) as nat);
    lemma_blocks_len(m, padding, n);
    assert(tile_blocks(m, padding, n) =~= before.push(block));
    before.lemma_flatten_push(block);
    assert(0 <= t * stride + o < n * stride) by (nonlinear_arith)
        requires
            0 <= t < n,
            0 <= o < stride,
    ;
    if t < n - 1 {
        lemma_blocks_byte(m, padding, (n - 1) as nat, t, o);
    } else {
        assert(t * stride + o - (n - 1) * stride == o) by (nonlinear_arith)
            requires
                t == n - 1,
        ;
    }
}

/// The length of the pixel data: a block for every full tile.
pub proof fn lemma_vram_len(m: GridModel<usize>, padding: nat)
    ensures
        vram_bytes(m, padding).len() == (m.width / 8) * (m.height / 8) * (16 + padding),
{
    lemma_blocks_len(m, padding, (m.width / 8) * (m.height / 8));
}

/// Byte `o` of the block of tile `t` in the pixel data: a bitplane byte of
/// that tile, or zero in the padding.
pub proof fn lemma_vram_byte(m: GridModel<usize>, padding: nat, t: int, o: int)
    requires
        0 <= t < (m.width / 8) * (m.height / 8),
        0 <= o < 16 + padding,
    ensures
        0 <= t * (16 + padding) + o < vram_bytes(m, padding).len(),
        vram_bytes(m, padding)[t * (16 + padding) + o] == (if o < 16 {
            let down = (m.height / 8) as int;
            plane_byte_at(tile_of(m, t / down, t % down).cells, o)
        } else {
            0u8
        }),
{
    lemma_blocks_byte(m, padding, (m.width / 8) * (m.height / 8), t, o);
}

/// An 8 by 8 grid whose cells all hold the same index encodes to eight equal
/// byte pairs and nothing else: a plane is all ones where the index has the
/// bit of that plane and all zeros where it has not.
pub proof fn lemma_uniform_tile(v: usize)
    ensures
        vram_bytes(GridModel::filled(8, 8, v), 0) == Seq::new(
            16,
            |n: int| (255 * index_bit(v, (n % 2) as nat)) as u8,
        ),
{
    let m = GridModel::filled(8, 8, v);
    let expected = Seq::new(16, |n: int| (255 * index_bit(v, (n % 2) as nat)) as u8);
    assert((m.width / 8) * (m.height / 8) == 1) by (nonlinear_arith)
        requires
            m.width == 8,
            m.height == 8,
    ;
    lemma_vram_len(m, 0);
    assert forall|n: int| 0 <= n < 16 implies vram_bytes(m, 0)[n] == expected[n] by {
        lemma_vram_byte(m, 0, 0, n);
        let group = group_of(tile_of(m, 0, 0).cells, n / 2);
        assert forall|k: int| 0 <= k < 8 implies group[k] == v by {
            let i = 8 * (n / 2) + k;
            assert(m.linear(i % 8, i / 8) == i);
        }
    }
    assert(vram_bytes(m, 0) =~= expected);
}

/// Appends the bitplane data of a grid's cells, taken in linear order.
pub fn encode_tile(tile: &(impl Grid<usize> + ?Sized), v_ram: &mut Vec<u8>)
    requires
        tile.model().wf(),
        tile.model().width * tile.model().height <= usize::MAX,
    ensures
        final(v_ram)@ == old(v_ram)@ + plane_bytes(tile.model().cells),
{
    let ghost start = v_ram@;
    let ghost cells = tile.model().cells;
    let chunks = tile.width() * tile.height() / 8;
    let mut chunk: usize = 0;
    while chunk < chunks
        invariant
            tile.model().wf(),
            tile.model().cells == cells,
            cells.len() <= usize::MAX,
            chunks == cells.len() / 8,
            chunk <= chunks,
            v_ram@ == start + plane_bytes_upto(cells, chunk as nat),
        decreases chunks - chunk,
    {
        let ghost group = group_of(cells, chunk as int);
        let mut bp1: u8 = 0;
        let mut bp2: u8 = 0;
        let mut k: usize = 0;
        while k < 8
            invariant
                tile.model().wf(),
                tile.model().cells == cells,
                cells.len() <= usize::MAX,
                chunks == cells.len() / 8,
                chunk < chunks,
                group == group_of(cells, chunk as int),
                k <= 8,
                bp1 == plane_prefix(group, 0, k as nat),
                bp2 == plane_prefix(group, 1, k as nat),
            decreases 8 - k,
        {
            let v = tile.idx_linear(chunk * 8 + k);
            let low: u8 = #[verifier::truncate] (v as u8);
            proof {
                lemma2_to64();
                lemma_plane_prefix_bound(group, 0, k as nat);
                lemma_plane_prefix_bound(group, 1, k as nat);
                if k < 7 {
                    lemma_pow2_strictly_increases(k as nat, 7);
                }
                assert(v == group[k as int]);
                assert((v as u8) & 1 == v % 2) by (bit_vector);
                assert(((v as u8) & 2) >> 1 == (v / 2) % 2) by (bit_vector);
                let b1 = low & 1;
                let b2 = (low & 2) >> 1;
                assert((bp1 << 1) | b1 == 2 * bp1 + b1) by (bit_vector)
                    requires
                        bp1 < 128,
                        b1 <= 1,
                ;
                assert((bp2 << 1) | b2 == 2 * bp2 + b2) by (bit_vector)
                    requires
                        bp2 < 128,
                        b2 <= 1,
                ;
            }
            bp1 = (bp1 << 1) | (low & 0b01);
            bp2 = (bp2 << 1) | ((low & 0b10) >> 1);
            k += 1;
        }
        proof {
            lemma_plane_prefix_full(group, 0);
            lemma_plane_prefix_full(group, 1);
        }
        v_ram.push(bp1);
        v_ram.push(bp2);
        assert(v_ram@ =~= start + plane_bytes_upto(cells, (chunk + 1) as nat));
        chunk += 1;
    }
}

/// Encodes a colour table as palette data.
pub fn encode_palette(palette: &Palette) -> (pal: Vec<u8>)
    ensures
        pal@ == palette_bytes(palette@),
{
    let mut pal: Vec<u8> = Vec::new();
    let size = palette.size();
    let mut c: usize = 0;
    while c < size
        invariant
            size == palette@.len(),
            c <= size,
            pal@ == palette_bytes(palette@.take(c as int)),
        decreases size - c,
    {
        let color = palette[c];
        let word: u16 = color.to_bgr555();
        proof {
            lemma_bgr555_bound(color);
            assert(word & 0x00ff == word % 256) by (bit_vector);
            assert((word & 0xff00) >> 8 == word / 256) by (bit_vector);
        }
        let ls_byte: u8 = (word & 0x00ff) as u8;
        let ms_byte: u8 = ((word & 0xff00) >> 8) as u8;
        pal.push(ls_byte);
        pal.push(ms_byte);
        assert(pal@ =~= palette_bytes(palette@.take(c + 1)));
        c += 1;
    }
    assert(palette@.take(size as int) =~= palette@);
    pal
}

/// Decodes palette data into colours. The low three bits of each channel,
/// which the data does not hold, are zero; a trailing single byte is ignored.
pub fn decode_palette(bytes: &[u8]) -> (colors: Vec<Color>)
    ensures
        colors@ == decoded_colors(bytes@),
{
    let mut colors: Vec<Color> = Vec::new();
    let count = bytes.len() / 2;
    let mut k: usize = 0;
    while k < count
        invariant
            bytes@.len() <= usize::MAX,
            count == bytes@.len() / 2,
            k <= count,
            colors@ == decoded_colors(bytes@).take(k as int),
        decreases count - k,
    {
        let lo: u16 = bytes[2 * k] as u16;
        let hi: u16 = bytes[2 * k + 1] as u16;
        assert(lo | (hi << 8) == lo + 256 * hi) by (bit_vector)
            requires
                lo < 256,
                hi < 256,
        ;
        colors.push(Color::from_bgr555(lo | (hi << 8)));
        assert(colors@ =~= decoded_colors(bytes@).take(k + 1));
        k += 1;
    }
    assert(decoded_colors(bytes@).take(count as int) =~= decoded_colors(bytes@));
    colors
}

/// Decoding the palette data of a colour table gives each colour back but
/// for the low three bits of each channel, which the format drops by design:
/// the five-bit value of every channel is recovered.
pub proof fn lemma_palette_round_trip(colors: Seq<Color>)
    ensures
        decoded_colors(palette_bytes(colors)).len() == colors.len(),
        forall|k: int|
            0 <= k < colors.len() ==> #[trigger] decoded_colors(palette_bytes(colors))[k]
                == colors[k].quantized(),
        forall|k: int|
            0 <= k < colors.len() ==> #[trigger] decoded_colors(palette_bytes(colors))[k].r / 8
                == colors[k].r / 8,
        forall|k: int|
            0 <= k < colors.len() ==> #[trigger] decoded_colors(palette_bytes(colors))[k].g / 8
                == colors[k].g / 8,
        forall|k: int|
            0 <= k < colors.len() ==> #[trigger] decoded_colors(palette_bytes(colors))[k].b / 8
                == colors[k].b / 8,
{
    let bytes = palette_bytes(colors);
    assert forall|k: int| 0 <= k < colors.len() implies {
        &&& #[trigger] decoded_colors(bytes)[k] == colors[k].quantized()
        &&& decoded_colors(bytes)[k].r / 8 == colors[k].r / 8
        &&& decoded_colors(bytes)[k].g / 8 == colors[k].g / 8
        &&& decoded_colors(bytes)[k].b / 8 == colors[k].b / 8
    } by {
        lemma_bgr555_bound(colors[k]);
        lemma_bgr555_round_trip(colors[k]);
        let v = colors[k].bgr555();
        assert(bytes[2 * k] == (v % 256) as u8);
        assert(bytes[2 * k + 1] == (v / 256) as u8);
        assert(palette_word(bytes, k) == v);
    }
}

/// The pixel data and the palette data of a canvas, with `padding` zero
/// bytes after the bitplane bytes of every tile.
///
/// Only the two-bitplane format exists: a palette of any other bit depth is
/// refused and no bytes are produced.
pub fn write_out_padded(
    grid: &(impl Grid<usize> + ?Sized),
    palette: &Palette,
    padding: usize,
) -> (r: Result<(Vec<u8>, Vec<u8>), Error>)
    requires
        grid.model().wf(),
    ensures
        r is Ok <==> palette.spec_bpp() == 2,
        r is Err ==> r->Err_0 == Error::UnsupportedBitDepth,
        r is Ok ==> r->Ok_0.0@ == vram_bytes(grid.model(), padding as nat) && r->Ok_0.1@
            == palette_bytes(palette@),
{
    if palette.bpp() != 2 {
        return Err(Error::UnsupportedBitDepth);
    }
    let ghost m = grid.model();
    let mut v_ram: Vec<u8> = Vec::new();
    let num_sprite_width = grid.width() / 8;
    let num_sprite_height = grid.height() / 8;
    let ghost down = num_sprite_height as nat;
    let mut i: usize = 0;
    assert(v_ram@ =~= tile_blocks(m, padding as nat, 0).flatten());
    while i < num_sprite_width
        invariant
            grid.model() == m,
            m.wf(),
            m.width <= usize::MAX,
            m.height <= usize::MAX,
            num_sprite_width == m.width / 8,
            num_sprite_height == m.height / 8,
            down == num_sprite_height,
            i <= num_sprite_width,
            v_ram@ == tile_blocks(m, padding as nat, (i * down) as nat).flatten(),
        decreases num_sprite_width - i,
    {
        let mut j: usize = 0;
        while j < num_sprite_height
            invariant
                grid.model() == m,
                m.wf(),
                m.width <= usize::MAX,
                m.height <= usize::MAX,
                num_sprite_width == m.width / 8,
                num_sprite_height == m.height / 8,
                down == num_sprite_height,
                i < num_sprite_width,
                j <= num_sprite_height,
                v_ram@ == tile_blocks(m, padding as nat, (i * down + j) as nat).flatten(),
            decreases num_sprite_height - j,
        {
            let ghost t = (i * down + j) as int;
            let tile = subgrid::<8, 8>(grid, (i * 8, (i + 1) * 8), (j * 8, (j + 1) * 8));
            proof {
                lemma_linear_split(down, j as int, i as int);
                assert(t / (down as int) == i && t % (down as int) == j);
                assert(tile.model().cells.len() == 64);
                let copy = tile.model();
                let wanted = tile_of(m, i as int, j as int);
                assert forall|r: int, c: int| copy.contains(r, c) implies #[trigger] copy.at(r, c)
                    == wanted.at(r, c) by {
                    assert(copy.at(r, c) == m.at(i * 8 + r, j * 8 + c));
                }
                lemma_grid_ext(copy, wanted);
            }
            let ghost before = v_ram@;
            encode_tile(&tile, &mut v_ram);
            let mut p: usize = 0;
            while p < padding
                invariant
                    p <= padding,
                    v_ram@ == before + plane_bytes(tile.model().cells) + zeros(p as nat),
                decreases padding - p,
            {
                v_ram.push(0u8);
                assert(v_ram@ =~= before + plane_bytes(tile.model().cells) + zeros((p + 1) as nat));
                p += 1;
            }
            proof {
                let blocks = tile_blocks(m, padding as nat, t as nat);
                let block = tile_block(m, padding as nat, t);
                assert(v_ram@ =~= before + block);
                assert(tile_blocks(m, padding as nat, (t + 1) as nat) =~= blocks.push(block));
                blocks.lemma_flatten_push(block);
            }
            j += 1;
        }
        assert(i * down + down == (i + 1) * down) by (nonlinear_arith);
        i += 1;
    }
    let pal = encode_palette(palette);
    Ok((v_ram, pal))
}

/// The pixel data and the palette data of a canvas: the bitplane bytes of
/// its tiles with nothing between them, and two bytes for each colour.
///
/// Only the two-bitplane format exists: a palette of any other bit depth is
/// refused and no bytes are produced.
pub fn write_out(
    grid: &(impl Grid<usize> + ?Sized),
    palette: &Palette,
) -> (r: Result<(Vec<u8>, Vec<u8>), Error>)
    requires
        grid.model().wf(),
    ensures
        r is Ok <==> palette.spec_bpp() == 2,
        r is Err ==> r->Err_0 == Error::UnsupportedBitDepth,
        r is Ok ==> r->Ok_0.0@ == vram_bytes(grid.model(), 0) && r->Ok_0.1@
            == palette_bytes(palette@),
{
    write_out_padded(grid, palette, 0)
}

} // verus!
