//! Pixel staging for cross-fading between two displayed generations.
//!
//! The buffer keeps, per pixel, the freshly loaded color (`input_pixels`),
//! the previously loaded color as an opaque background (`background_pixels`),
//! and a composited output. Loading a new frame moves the old input to the
//! background with full alpha and stores the new colors with zero alpha, so
//! a blend can fade the new frame in over the old one. The blend itself
//! composites with fractional alpha and lives outside this crate's verified
//! core; the fields are public for it.

use vstd::prelude::*;
use vstd::pervasive::VecAdditionalExecFns;

verus! {

/// Channel values at or below this count as dark.
pub const MAX_DARK_VALUE: u8 = 0x10;

/// Whether a pixel's red, green and blue channels are all dark.
pub fn is_dark(pixel: [u8; 4]) -> (r: bool)
    ensures
        r == (pixel@[0] <= MAX_DARK_VALUE && pixel@[1] <= MAX_DARK_VALUE && pixel@[2]
            <= MAX_DARK_VALUE),
{
    pixel[0] <= MAX_DARK_VALUE && pixel[1] <= MAX_DARK_VALUE && pixel[2] <= MAX_DARK_VALUE
}

/// Per-pixel staging for cross-fading one displayed frame into the next.
pub struct PixelCrossFadeBuffer {
    pub input_pixels: Vec<[u8; 4]>,
    pub background_pixels: Vec<[u8; 4]>,
    pub output_pixels: Vec<[u8; 4]>,
}

impl PixelCrossFadeBuffer {
    /// All three planes hold one pixel per cell.
    pub open spec fn wf(self) -> bool {
        &&& self.input_pixels@.len() == self.background_pixels@.len()
        &&& self.input_pixels@.len() == self.output_pixels@.len()
    }

    /// Three planes of `width * height` black, fully transparent pixels.
    pub fn new(width: u32, height: u32) -> (r: PixelCrossFadeBuffer)
        requires
            width as int * height as int <= usize::MAX as int,
        ensures
            r.wf(),
            r.input_pixels@.len() == width as int * height as int,
            forall|i: int| 0 <= i < r.input_pixels@.len() ==> (#[trigger] r.input_pixels@[i])@
                =~= seq![0u8, 0u8, 0u8, 0u8],
    {
        let num_pixels = (width as usize) * (height as usize);
        let mut input_pixels: Vec<[u8; 4]> = Vec::new();
        let mut background_pixels: Vec<[u8; 4]> = Vec::new();
        let mut output_pixels: Vec<[u8; 4]> = Vec::new();
        while input_pixels.len() < num_pixels
            invariant
                input_pixels@.len() <= num_pixels,
                background_pixels@.len() == input_pixels@.len(),
                output_pixels@.len() == input_pixels@.len(),
                forall|i: int| 0 <= i < input_pixels@.len() ==> (#[trigger] input_pixels@[i])@
                    =~= seq![0u8, 0u8, 0u8, 0u8],
            decreases num_pixels - input_pixels@.len(),
        {
            let zero = [0u8, 0u8, 0u8, 0u8];
            proof {
                assert(zero@ =~= seq![0u8, 0u8, 0u8, 0u8]);
            }
            input_pixels.push(zero);
            background_pixels.push(zero);
            output_pixels.push(zero);
        }
        PixelCrossFadeBuffer { input_pixels, background_pixels, output_pixels }
    }

    /// Takes the next frame's cell colors: each pixel's old input becomes
    /// the opaque background, and the new color is stored with zero alpha,
    /// ready to be faded in.
    pub fn load(&mut self, colors: &Vec<[u8; 4]>)
        requires
            old(self).wf(),
            colors@.len() == old(self).input_pixels@.len(),
        ensures
            final(self).wf(),
            final(self).input_pixels@.len() == old(self).input_pixels@.len(),
            forall|i: int|
                0 <= i < colors@.len() ==> (#[trigger] final(self).background_pixels@[i])@ == old(
                    self).input_pixels@[i]@.update(3, 0xffu8),
            forall|i: int| 0 <= i < colors@.len() ==> (#[trigger] final(self).input_pixels@[i])@
                == colors@[i]@.update(3, 0u8),
            final(self).output_pixels == old(self).output_pixels,
    {
        let n = self.input_pixels.len();
        let ghost orig_input = self.input_pixels@;
        #[verifier::loop_isolation(false)]
        for i in 0..n
            invariant
                self.wf(),
                self.input_pixels@.len() == n,
                forall|j: int| 0 <= j < i ==> (#[trigger] self.background_pixels@[j])@
                    == orig_input[j]@.update(3, 0xffu8),
                forall|j: int| 0 <= j < i ==> (#[trigger] self.input_pixels@[j])@
                    == colors@[j]@.update(3, 0u8),
                forall|j: int| i <= j < n ==> self.input_pixels@[j] == orig_input[j],
                self.output_pixels == old(self).output_pixels,
        {
            let prior = self.input_pixels[i];
            let background = [prior[0], prior[1], prior[2], 0xffu8];
            let color = colors[i];
            let input = [color[0], color[1], color[2], 0u8];
            proof {
                assert(background@ =~= orig_input[i as int]@.update(3, 0xffu8));
                assert(input@ =~= colors@[i as int]@.update(3, 0u8));
            }
            self.background_pixels.set(i, background);
            self.input_pixels.set(i, input);
        }
    }
}

} // verus!
