//! The application icon: a PNG image with everything outside its shape cut out.

use vstd::prelude::*;

verus! {

/// The error of the image decoder.
#[verifier::external_type_specification]
#[verifier::external_body]
pub struct ExImageError(image::ImageError);

/// What a PNG file decodes to: width, height, and the pixels row by row as red,
/// green, blue and alpha bytes. `None` if it cannot be decoded.
pub uninterp spec fn png_pixels(bytes: Seq<u8>) -> Option<(u32, u32, Seq<u8>)>;

/// Decodes a PNG file with `image::load_from_memory_with_format`, and converts
/// its pixels with `DynamicImage::into_rgba8`. The result depends on the bytes
/// alone; four bytes come back for each pixel. What the pixels are is left
/// unsaid.
#[verifier::external_body]
fn decode_png(bytes: &[u8]) -> (r: Result<(u32, u32, Vec<u8>), image::ImageError>)
    ensures
        match r {
            Ok((width, height, rgba)) => {
                &&& png_pixels(bytes@) == Some((width, height, rgba@))
                &&& rgba@.len() == 4 * width * height
            },
            Err(_) => png_pixels(bytes@) is None,
        },
{
    let img = image::load_from_memory_with_format(bytes, image::ImageFormat::Png)?.into_rgba8();
    let (width, height) = img.dimensions();
    Ok((width, height, img.into_raw()))
}

/// Why there is no icon.
#[derive(Debug, Clone, Copy, PartialEq, Eq, Structural)]
pub enum IconError {
    /// The file is no PNG file that can be decoded.
    NotPng,
}

/// An icon, its pixels row by row as red, green, blue and alpha bytes.
#[derive(Debug, Clone, PartialEq, Eq)]
pub struct Icon {
    pub width: u32,
    pub height: u32,
    pub rgba: Vec<u8>,
}

impl Icon {
    /// There are four bytes for each pixel.
    pub open spec fn wf(self) -> bool {
        self.rgba@.len() == 4 * self.width * self.height
    }

    /// Decodes an icon from a PNG file.
    pub fn decode(bytes: &[u8]) -> (r: Result<Self, IconError>)
        ensures
            match r {
                Ok(icon) => icon.wf() && png_pixels(bytes@) == Some(
                    (icon.width, icon.height, icon.rgba@),
                ),
                Err(e) => e == IconError::NotPng && png_pixels(bytes@) is None,
            },
    {
        match decode_png(bytes) {
            Ok((width, height, rgba)) => Ok(Icon { width, height, rgba }),
            Err(_) => Err(IconError::NotPng),
        }
    }

    /// Makes every pixel transparent that is not `inside` the icon's shape. The
    /// pixels are given row by row.
    pub fn cut_out(&mut self, inside: &Vec<bool>)
        requires
            old(self).wf(),
            inside@.len() == old(self).width * old(self).height,
        ensures
            final(self).wf(),
            final(self).width == old(self).width,
            final(self).height == old(self).height,
            final(self).rgba@ == masked(old(self).rgba@, inside@),
    {
        let ghost before = self.rgba@;
        let n: usize = inside.len();
        assert(4 * self.width * self.height == 4 * (self.width * self.height))
            by (nonlinear_arith);
        let mut i: usize = 0;
        while i < n
            invariant
                i <= n == inside@.len(),
                before.len() == 4 * n,
                self.rgba@.len() == before.len(),
                self.rgba.len() == before.len(),
                self.width == old(self).width,
                self.height == old(self).height,
                forall|k: int|
                    0 <= k < before.len() ==> #[trigger] self.rgba@[k] == if k / 4 < i {
                        masked(before, inside@)[k]
                    } else {
                        before[k]
                    },
            decreases n - i,
        {
            if !inside[i] {
                let at: usize = 4 * i + 3;
                self.rgba.set(at, 0);
            }
            i += 1;
        }
        assert(self.rgba@ =~= masked(before, inside@));
    }
}

/// Pixels with the alpha byte set to 0 wherever `inside` does not hold.
pub open spec fn masked(rgba: Seq<u8>, inside: Seq<bool>) -> Seq<u8> {
    Seq::new(
        rgba.len(),
        |k: int|
            if k % 4 == 3 && !inside[k / 4] {
                0
            } else {
                rgba[k]
            },
    )
}

/// Cutting out keeps the colors of every pixel, and the opacity of those inside the
/// shape. A pixel outside becomes transparent.
pub proof fn lemma_cut_out(rgba: Seq<u8>, inside: Seq<bool>, k: int)
    requires
        rgba.len() == 4 * inside.len(),
        0 <= k < inside.len(),
    ensures
        masked(rgba, inside).len() == rgba.len(),
        masked(rgba, inside)[4 * k] == rgba[4 * k],
        masked(rgba, inside)[4 * k + 1] == rgba[4 * k + 1],
        masked(rgba, inside)[4 * k + 2] == rgba[4 * k + 2],
        inside[k] ==> masked(rgba, inside)[4 * k + 3] == rgba[4 * k + 3],
        !inside[k] ==> masked(rgba, inside)[4 * k + 3] == 0,
{
}

} // verus!
