//! Pixel formats of the textures handed to the renderer.

use vstd::prelude::*;

verus! {

/// Layout of one pixel in a texture's byte buffer.
#[derive(Debug, Clone, Copy, PartialEq, Eq, Structural)]
pub enum TextureFormat {
    Rgba8,
    Bgra8,
}

impl TextureFormat {
    /// Number of bytes one pixel occupies: four, one per channel, in either format.
    pub open spec fn spec_bytes_per_pixel(&self) -> usize {
        4
    }

    #[verifier::when_used_as_spec(spec_bytes_per_pixel)]
    pub fn bytes_per_pixel(&self) -> (n: usize)
        ensures
            n == self.spec_bytes_per_pixel(),
    {
        match self {
            TextureFormat::Rgba8 | TextureFormat::Bgra8 => 4,
        }
    }
}

/// The green of a grass blade texture, as red, green and blue.
pub open spec fn base_color(variation: u32) -> (u8, u8, u8) {
    let k = variation % 8;
    if k == 0 {
        (76u8, 153u8, 51u8)
    } else if k == 1 {
        (102u8, 153u8, 51u8)
    } else if k == 2 {
        (51u8, 153u8, 76u8)
    } else if k == 3 {
        (89u8, 140u8, 64u8)
    } else if k == 4 {
        (115u8, 161u8, 82u8)
    } else if k == 5 {
        (64u8, 128u8, 48u8)
    } else if k == 6 {
        (96u8, 156u8, 72u8)
    } else {
        (83u8, 145u8, 58u8)
    }
}

/// Seed of the generator that grains the grass blade textures: the same
/// textures on every run.
pub const TEXTURE_SEED: u64 = 42;

/// Sizes and variations of the procedural grass blade textures.
#[derive(Debug, Clone, Copy, PartialEq, Eq, Structural)]
pub struct GrassTextureGenerator {
    width: u32,
    height: u32,
    variations: u32,
}

impl GrassTextureGenerator {
    /// Width of one texture in pixels.
    pub closed spec fn spec_width(&self) -> u32 {
        self.width
    }

    /// Height of one texture in pixels.
    pub closed spec fn spec_height(&self) -> u32 {
        self.height
    }

    /// Number of textures in the array.
    pub closed spec fn spec_variations(&self) -> u32 {
        self.variations
    }

    /// Number of bytes of one texture: four per pixel.
    pub open spec fn texture_bytes(&self) -> nat {
        (self.spec_width() * self.spec_height() * 4) as nat
    }

    /// Number of bytes of the whole array: the textures one after the other.
    pub open spec fn array_bytes(&self) -> nat {
        (self.texture_bytes() * self.spec_variations()) as nat
    }

    /// A generator of `variations` textures of `width` by `height` pixels.
    pub fn new(width: u32, height: u32, variations: u32) -> (generator: GrassTextureGenerator)
        ensures
            generator.spec_width() == width,
            generator.spec_height() == height,
            generator.spec_variations() == variations,
    {
        GrassTextureGenerator { width, height, variations }
    }

    /// The format of the generated textures.
    pub fn format() -> (format: TextureFormat)
        ensures
            format == TextureFormat::Rgba8,
    {
        TextureFormat::Rgba8
    }

    /// Width of one texture in pixels.
    #[verifier::when_used_as_spec(spec_width)]
    pub fn width(&self) -> (w: u32)
        ensures
            w == self.spec_width(),
    {
        self.width
    }

    /// Height of one texture in pixels.
    #[verifier::when_used_as_spec(spec_height)]
    pub fn height(&self) -> (h: u32)
        ensures
            h == self.spec_height(),
    {
        self.height
    }

    /// Number of textures in the array.
    #[verifier::when_used_as_spec(spec_variations)]
    pub fn variations(&self) -> (n: u32)
        ensures
            n == self.spec_variations(),
    {
        self.variations
    }

    /// Number of bytes of the texture array, or `None` where that number is
    /// more than 32 bits hold.
    pub fn array_len(&self) -> (r: Option<usize>)
        ensures
            r == if self.array_bytes() <= u32::MAX {
                Some(self.array_bytes() as usize)
            } else {
                None
            },
    {
        assert((self.width as u64) * (self.height as u64) <= 0xffff_ffff * 0xffff_ffff)
            by (nonlinear_arith)
            requires
                self.width <= 0xffff_ffff,
                self.height <= 0xffff_ffff,
        ;
        let pixels: u64 = (self.width as u64) * (self.height as u64);
        if self.variations == 0 {
            assert(self.array_bytes() == 0) by (nonlinear_arith)
                requires
                    self.array_bytes() == self.texture_bytes() * self.spec_variations(),
                    self.spec_variations() == 0,
            ;
            return Some(0);
        }
        assert(self.array_bytes() >= self.texture_bytes()) by (nonlinear_arith)
            requires
                self.array_bytes() == self.texture_bytes() * self.spec_variations(),
                self.spec_variations() > 0,
        ;
        if pixels > 0x3fff_ffff {
            return None;
        }
        let bytes: u64 = pixels * 4;
        assert(bytes * (self.variations as u64) <= 0xffff_ffff * 0xffff_ffff
            && bytes * (self.variations as u64) == self.array_bytes()) by (nonlinear_arith)
            requires
                bytes == self.texture_bytes(),
                bytes <= 0xffff_ffff,
                self.variations == self.spec_variations(),
                self.variations <= 0xffff_ffff,
                self.array_bytes() == self.texture_bytes() * self.spec_variations(),
        ;
        let total: u64 = bytes * (self.variations as u64);
        if total > 0xffff_ffff {
            None
        } else {
            Some(total as usize)
        }
    }

    /// The base colour of a variation: one of eight greens, taken in turn.
    pub fn base_color(variation: u32) -> (color: (u8, u8, u8))
        ensures
            color == base_color(variation),
    {
        let k: u32 = variation % 8;
        if k == 0 {
            (76, 153, 51)
        } else if k == 1 {
            (102, 153, 51)
        } else if k == 2 {
            (51, 153, 76)
        } else if k == 3 {
            (89, 140, 64)
        } else if k == 4 {
            (115, 161, 82)
        } else if k == 5 {
            (64, 128, 48)
        } else if k == 6 {
            (96, 156, 72)
        } else {
            (83, 145, 58)
        }
    }

    /// The variations from the fifth on, counted in eights, show a vein.
    pub fn has_vein(variation: u32) -> (r: bool)
        ensures
            r == (variation >= 4),
    {
        variation >= 4
    }

    /// Every third variation, from the third on, shows spots of wear.
    pub fn has_wear(variation: u32) -> (r: bool)
        ensures
            r == (variation % 3 == 2),
    {
        variation % 3 == 2
    }
}

} // verus!
