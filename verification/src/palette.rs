//! The indexed colour table of a canvas.

use crate::color::Color;
use crate::error::Error;
use vstd::arithmetic::power2::lemma2_to64;
use vstd::arithmetic::power2::pow2;
use vstd::prelude::*;

verus! {

/// The bit depths a palette can have.
pub open spec fn valid_bpp(bpp: int) -> bool {
    bpp == 1 || bpp == 2 || bpp == 3 || bpp == 4 || bpp == 8
}

/// The number of colours of a palette of the given bit depth.
pub open spec fn color_count(bpp: nat) -> nat {
    pow2(bpp)
}

/// The colours a fresh palette holds.
pub open spec fn default_colors() -> Seq<Color> {
    seq![
        Color::spec_white(),
        Color::spec_black(),
        Color { r: 0x71, g: 0x01, b: 0x93 },
        Color { r: 0x01, g: 0x47, b: 0xab },
    ]
}

/// What a change of bit depth makes of a colour table: the first `count`
/// colours in their order, black where the old table has none.
pub open spec fn resized_colors(old_colors: Seq<Color>, count: nat) -> Seq<Color> {
    Seq::new(
        count,
        |i: int|
            if i < old_colors.len() {
                old_colors[i]
            } else {
                Color::spec_black()
            },
    )
}

/// The text that names a bit depth.
pub open spec fn bpp_label(bpp: nat) -> Seq<char> {
    if bpp == 1 {
        "1 BPP (2 colors)"@
    } else if bpp == 2 {
        "2 BPP (4 colors)"@
    } else if bpp == 3 {
        "3 BPP (8 colors)"@
    } else if bpp == 4 {
        "4 BPP (16 colors)"@
    } else {
        "8 BPP (256 colors)"@
    }
}

/// An ordered table of `2^bpp` colours.
pub struct Palette {
    bpp: usize,
    colors: Vec<Color>,
}

impl View for Palette {
    type V = Seq<Color>;

    /// The colours in index order.
    closed spec fn view(&self) -> Seq<Color> {
        self.colors@
    }
}

impl Palette {
    /// The bit depth.
    pub closed spec fn spec_bpp(&self) -> nat {
        self.bpp as nat
    }

    /// The bit depth is one of the five depths and the table has one colour
    /// for each index of that depth.
    pub open spec fn wf(&self) -> bool {
        valid_bpp(self.spec_bpp() as int) && self@.len() == color_count(self.spec_bpp())
    }

    /// The table of every palette holds at least two colours and at most 256.
    pub proof fn lemma_size_bounds(&self)
        requires
            self.wf(),
        ensures
            2 <= self@.len() <= 256,
            self.spec_bpp() == 1 ==> self@.len() == 2,
            self.spec_bpp() == 2 ==> self@.len() == 4,
            self.spec_bpp() == 3 ==> self@.len() == 8,
            self.spec_bpp() == 4 ==> self@.len() == 16,
            self.spec_bpp() == 8 ==> self@.len() == 256,
    {
        lemma2_to64();
    }

    /// The 2-bpp palette a canvas starts with.
    pub fn new() -> (p: Palette)
        ensures
            p.wf(),
            p.spec_bpp() == 2,
            p@ == default_colors(),
    {
        let mut colors: Vec<Color> = Vec::new();
        colors.push(Color::white());
        colors.push(Color::black());
        colors.push(Color::from_rgb(0x71, 0x01, 0x93));
        colors.push(Color::from_rgb(0x01, 0x47, 0xab));
        proof {
            lemma2_to64();
            assert(colors@ =~= default_colors());
        }
        Palette { bpp: 2, colors }
    }

    /// The colour at `idx`.
    pub fn get_color(&self, idx: usize) -> (c: Color)
        requires
            idx < self@.len(),
        ensures
            c == self@[idx as int],
    {
        self.colors[idx]
    }

    /// A handle on the colour at `idx`: what is written through it is the
    /// only change to the palette.
    pub fn get_color_mut(&mut self, idx: usize) -> (c: &mut Color)
        requires
            idx < old(self)@.len(),
        ensures
            *c == old(self)@[idx as int],
            final(self)@ == old(self)@.update(idx as int, *final(c)),
            final(self).spec_bpp() == old(self).spec_bpp(),
    {
        &mut self.colors[idx]
    }

    /// Replaces the colour at `idx`.
    pub fn set_color(&mut self, idx: usize, color: Color)
        requires
            idx < old(self)@.len(),
        ensures
            final(self)@ == old(self)@.update(idx as int, color),
            final(self).spec_bpp() == old(self).spec_bpp(),
    {
        self.colors.set(idx, color);
    }

    /// The number of colours.
    pub fn size(&self) -> (n: usize)
        ensures
            n == self@.len(),
    {
        self.colors.len()
    }

    /// The bit depth.
    pub fn bpp(&self) -> (b: usize)
        ensures
            b == self.spec_bpp(),
    {
        self.bpp
    }

    /// Changes the bit depth to `bpp`.
    ///
    /// A depth other than 1, 2, 3, 4 or 8 is refused and leaves the palette as
    /// it was. Otherwise the colours at indices that both tables have are
    /// kept, and each index that only the new table has holds black.
    pub fn set_bpp(&mut self, bpp: usize) -> (r: Result<(), Error>)
        ensures
            r is Ok <==> valid_bpp(bpp as int),
            r is Err ==> r->Err_0 == Error::UnsupportedBitDepth,
            r is Err ==> *final(self) == *old(self),
            r is Ok ==> final(self).wf(),
            r is Ok ==> final(self).spec_bpp() == bpp,
            r is Ok ==> final(self)@ == resized_colors(old(self)@, color_count(bpp as nat)),
            r is Ok ==> forall|i: int|
                0 <= i < old(self)@.len() && i < final(self)@.len() ==> final(self)@[i]
                    == old(self)@[i],
            r is Ok ==> forall|i: int|
                old(self)@.len() <= i < final(self)@.len() ==> final(self)@[i]
                    == Color::spec_black(),
    {
        let count: usize = match bpp {
            1 => 2,
            2 => 4,
            3 => 8,
            4 => 16,
            8 => 256,
            _ => {
                return Err(Error::UnsupportedBitDepth);
            },
        };
        proof {
            lemma2_to64();
        }
        let mut colors: Vec<Color> = Vec::new();
        let mut i: usize = 0;
        while i < count
            invariant
                i <= count,
                colors@ == resized_colors(self@, i as nat),
            decreases count - i,
        {
            let color = if i < self.colors.len() {
                self.colors[i]
            } else {
                Color::black()
            };
            colors.push(color);
            assert(colors@ =~= resized_colors(self@, (i + 1) as nat));
            i += 1;
        }
        self.bpp = bpp;
        self.colors = colors;
        Ok(())
    }

    /// The text that names the palette's bit depth.
    pub fn to_string(&self) -> (s: String)
        ensures
            s@ == bpp_label(self.spec_bpp()),
    {
        if self.bpp == 1 {
            "1 BPP (2 colors)".to_owned()
        } else if self.bpp == 2 {
            "2 BPP (4 colors)".to_owned()
        } else if self.bpp == 3 {
            "3 BPP (8 colors)".to_owned()
        } else if self.bpp == 4 {
            "4 BPP (16 colors)".to_owned()
        } else {
            "8 BPP (256 colors)".to_owned()
        }
    }
}

impl std::ops::Index<usize> for Palette {
    type Output = Color;

    /// The colour at `index`.
    fn index(&self, index: usize) -> (c: &Color)
        ensures
            *c == self@[index as int],
    {
        &self.colors[index]
    }
}

impl vstd::std_specs::core::IndexSpecImpl<usize> for Palette {
    /// Only the indices of the table can be read.
    open spec fn index_req(&self, index: &usize) -> bool {
        *index < self@.len()
    }
}

impl Default for Palette {
    fn default() -> (p: Palette)
        ensures
            p.wf(),
            p.spec_bpp() == 2,
            p@ == default_colors(),
    {
        Palette::new()
    }
}

} // verus!
