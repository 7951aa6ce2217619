//! The fixed image configuration: aspect ratio and width, with the image
//! height derived from them once.
use vstd::prelude::*;

verus! {

/// Numerator of the standard aspect ratio (16:9).
pub const STANDARD_ASPECT_NUM: u32 = 16;

/// Denominator of the standard aspect ratio (16:9).
pub const STANDARD_ASPECT_DEN: u32 = 9;

/// Width in pixels of the standard image.
pub const STANDARD_IMAGE_WIDTH: u32 = 400;

/// Height for a width and an aspect ratio `num / den` (width over height):
/// `floor(width / (num / den))`, and never less than one row.
pub open spec fn height_for(width: nat, num: nat, den: nat) -> nat {
    if num == 0 || width * den / num == 0 {
        1
    } else {
        width * den / num
    }
}

/// Image dimensions, with the aspect ratio held exactly as a fraction.
#[derive(Clone, Copy, Debug, PartialEq, Eq)]
pub struct ImageConfig {
    pub aspect_num: u32,
    pub aspect_den: u32,
    pub image_width: u32,
    pub image_height: u32,
}

impl ImageConfig {
    /// The configuration is usable: a positive ratio and width, and the
    /// height derived from them.
    pub open spec fn wf(&self) -> bool {
        &&& self.aspect_num > 0
        &&& self.aspect_den > 0
        &&& self.image_width > 0
        &&& self.image_height == height_for(
            self.image_width as nat,
            self.aspect_num as nat,
            self.aspect_den as nat,
        )
    }

    /// Derives the height from the ratio `aspect_num / aspect_den` and the
    /// width. `None` when a term is zero or the height exceeds `u32`.
    pub fn new(aspect_num: u32, aspect_den: u32, image_width: u32) -> (r: Option<ImageConfig>)
        ensures
            r is Some <==> (aspect_num > 0 && aspect_den > 0 && image_width > 0
                && height_for(image_width as nat, aspect_num as nat, aspect_den as nat)
                <= u32::MAX),
            r matches Some(c) ==> (c.wf() && c.aspect_num == aspect_num && c.aspect_den
                == aspect_den && c.image_width == image_width),
    {
        if aspect_num == 0 || aspect_den == 0 || image_width == 0 {
            return None;
        }
        proof {
            vstd::arithmetic::mul::lemma_mul_upper_bound(
                image_width as int, u32::MAX as int,
                aspect_den as int, u32::MAX as int);
        }
        let scaled: u64 = image_width as u64 * aspect_den as u64;
        let rows: u64 = scaled / aspect_num as u64;
        let height: u64 = if rows == 0 { 1 } else { rows };
        if height > u32::MAX as u64 {
            return None;
        }
        Some(ImageConfig { aspect_num, aspect_den, image_width, image_height: height as u32 })
    }

    /// The 16:9, 400-pixel-wide image.
    pub fn standard() -> (r: ImageConfig)
        ensures
            r.wf(),
            r.aspect_num == STANDARD_ASPECT_NUM,
            r.aspect_den == STANDARD_ASPECT_DEN,
            r.image_width == STANDARD_IMAGE_WIDTH,
            r.image_height == 225,
    {
        ImageConfig {
            aspect_num: STANDARD_ASPECT_NUM,
            aspect_den: STANDARD_ASPECT_DEN,
            image_width: STANDARD_IMAGE_WIDTH,
            image_height: 225,
        }
    }

    /// Number of pixels: `image_width * image_height`.
    pub fn pixel_count(&self) -> (r: u64)
        ensures
            r == self.image_width * self.image_height,
    {
        proof {
            vstd::arithmetic::mul::lemma_mul_upper_bound(
                self.image_width as int, u32::MAX as int,
                self.image_height as int, u32::MAX as int);
        }
        self.image_width as u64 * self.image_height as u64
    }
}

} // verus!
