pub mod picture;

use crate::scene::image_data::Image;
use picture::{flipped_rows, picture_bytes, picture_dimensions};
use picture::{picture_flip_vertical, picture_from_raw, Picture};
use vstd::prelude::*;

verus! {

/// A readback was handed a sequence that does not hold one pixel for each
/// pixel of the image.
#[derive(Clone, Copy, Debug, PartialEq, Eq, Structural)]
pub struct SizeMismatch {
    /// Pixels of the image.
    pub expected: u64,
    /// Pixels that were handed over.
    pub found: usize,
}

/// The bytes of `pixels` one after another: red, green and blue of the first
/// pixel, then of the second, and so on.
pub open spec fn interleaved(pixels: Seq<[u8; 3]>) -> Seq<u8> {
    Seq::new(3 * pixels.len(), |i: int| pixels[i / 3][i % 3])
}

/// What a renderer holds, as plain values.
pub struct RendererView {
    pub image: Image,
    /// Full passes that were counted.
    pub accumulated_samples: nat,
    /// The display buffer: three bytes for each pixel, rows one after another.
    pub output: Seq<u8>,
}

impl RendererView {
    /// A renderer for `image` before any pass: a black display buffer.
    pub open spec fn fresh(image: Image) -> RendererView {
        RendererView {
            image,
            accumulated_samples: 0,
            output: Seq::new(image.bytes(), |i: int| 0u8),
        }
    }

    /// The renderer after one more pass was counted.
    pub open spec fn counted(self) -> RendererView {
        RendererView { accumulated_samples: self.accumulated_samples + 1, ..self }
    }

    /// The renderer after a readback of `pixels`.
    pub open spec fn read_back(self, pixels: Seq<[u8; 3]>) -> RendererView {
        RendererView { output: interleaved(pixels), ..self }
    }

    /// The display buffer holds three bytes for each pixel of the image.
    pub open spec fn inv(self) -> bool {
        self.output.len() == self.image.bytes()
    }

    /// Width and height of the pictures that the renderer hands out: those of
    /// the image, cut to the 32 bits in which a picture holds them.
    pub open spec fn picture_size(self) -> (nat, nat) {
        ((self.image.width as u32) as nat, (self.image.height as u32) as nat)
    }
}

/// The bookkeeping of a progressive render: the image it is for, the passes
/// accumulated so far, and the 8-bit display buffer that a readback fills.
#[derive(Debug)]
pub struct Renderer {
    output_buffer: Vec<u8>,
    accumulated_samples: u64,
    image: Image,
}

impl View for Renderer {
    type V = RendererView;

    closed spec fn view(&self) -> RendererView {
        RendererView {
            image: self.image,
            accumulated_samples: self.accumulated_samples as nat,
            output: self.output_buffer@,
        }
    }
}

impl Renderer {
    #[verifier::type_invariant]
    spec fn well_formed(self) -> bool {
        self@.inv()
    }

    /// A renderer for `image` with no pass counted and a black display
    /// buffer.
    pub fn new(image: Image) -> (renderer: Self)
        requires
            image.bytes() <= usize::MAX,
        ensures
            renderer@ == RendererView::fresh(image),
    {
        assert(image.width * image.height <= 3 * (image.width * image.height));
        let len: u64 = 3 * (image.width * image.height);
        let output_buffer = vec![0u8; len as usize];
        assert(output_buffer@ =~= Seq::new(image.bytes(), |i: int| 0u8));
        Renderer { output_buffer, accumulated_samples: 0, image }
    }

    /// The image that the renderer was made for.
    pub fn image(&self) -> (image: Image)
        ensures
            image == self@.image,
            self@.inv(),
    {
        proof {
            use_type_invariant(self);
        }
        self.image
    }

    /// Full passes counted so far.
    pub fn accumulated_samples(&self) -> (samples: u64)
        ensures
            samples == self@.accumulated_samples,
    {
        self.accumulated_samples
    }

    /// Counts one more full pass over the image. The display buffer stays as
    /// it is until the next readback.
    pub fn begin_pass(&mut self)
        requires
            old(self)@.accumulated_samples < u64::MAX,
        ensures
            final(self)@ == old(self)@.counted(),
    {
        proof {
            use_type_invariant(&*self);
        }
        self.accumulated_samples = self.accumulated_samples + 1;
    }

    /// Readback: lays `pixels`, one for each pixel of the image in row-major
    /// order, into the display buffer. A sequence of another length is
    /// refused and changes nothing. The pass count is never touched.
    pub fn set_output_buffer(&mut self, pixels: &Vec<[u8; 3]>) -> (done: Result<(), SizeMismatch>)
        ensures
            done is Ok <==> pixels@.len() == old(self)@.image.pixels(),
            done is Ok ==> final(self)@ == old(self)@.read_back(pixels@),
            done matches Err(mismatch) ==> {
                &&& final(self)@ == old(self)@
                &&& mismatch.expected == old(self)@.image.pixels()
                &&& mismatch.found == pixels@.len()
            },
    {
        proof {
            use_type_invariant(&*self);
        }
        let count = pixels.len();
        let len = self.output_buffer.len();
        assert(self.image.width * self.image.height <= len);
        let expected: u64 = self.image.width * self.image.height;
        if count as u64 != expected {
            return Err(SizeMismatch { expected, found: count });
        }
        let mut output: Vec<u8> = Vec::with_capacity(len);
        let mut i: usize = 0;
        while i < count
            invariant
                count == pixels@.len(),
                i <= count,
                3 * count <= usize::MAX,
                output@.len() == 3 * i,
                forall|k: int| 0 <= k < 3 * i ==> output@[k] == (#[trigger] pixels@[k / 3])[k % 3],
            decreases count - i,
        {
            let pixel: [u8; 3] = pixels[i];
            output.push(pixel[0]);
            output.push(pixel[1]);
            output.push(pixel[2]);
            i = i + 1;
        }
        assert(output@ =~= interleaved(pixels@));
        self.output_buffer = output;
        Ok(())
    }

    /// A copy of the display buffer.
    pub fn get_raw_image_buffer(&self) -> (raw: Vec<u8>)
        ensures
            raw@ == self@.output,
            raw@.len() == self@.image.bytes(),
    {
        proof {
            use_type_invariant(self);
        }
        let raw = self.output_buffer.clone();
        assert(raw@ =~= self.output_buffer@);
        raw
    }

    /// The display buffer as a picture, first row first. The buffer always
    /// holds what the picture needs, so there always is one.
    pub fn get_image_buffer(&self) -> (picture: Option<Picture>)
        ensures
            picture matches Some(made) && picture_bytes(made) == self@.output && picture_dimensions(
                made,
            ) == self@.picture_size(),
    {
        proof {
            use_type_invariant(self);
            lemma_picture_fits(self.image);
        }
        let width: u32 = #[verifier::truncate]
        (self.image.width as u32);
        let height: u32 = #[verifier::truncate]
        (self.image.height as u32);
        picture_from_raw(width, height, self.get_raw_image_buffer())
    }

    /// The display buffer as a picture with the last row first, for a viewer
    /// that counts rows from the top.
    pub fn get_flipped_image_buffer(&self) -> (picture: Option<Picture>)
        ensures
            picture matches Some(made) && picture_dimensions(made) == self@.picture_size()
                && picture_bytes(made) == flipped_rows(
                self@.output,
                self@.picture_size().0,
                self@.picture_size().1,
            ),
    {
        proof {
            use_type_invariant(self);
            lemma_picture_fits(self.image);
        }
        match self.get_image_buffer() {
            Some(upright) => Some(picture_flip_vertical(&upright)),
            None => None,
        }
    }
}

impl Clone for Renderer {
    /// A second renderer that holds what this one holds.
    fn clone(&self) -> (copy: Self)
        ensures
            copy@ == self@,
    {
        proof {
            use_type_invariant(self);
        }
        let output_buffer = self.output_buffer.clone();
        assert(output_buffer@ =~= self.output_buffer@);
        Renderer {
            output_buffer,
            accumulated_samples: self.accumulated_samples,
            image: self.image,
        }
    }
}

/// A picture of the size that the renderer hands out never needs more bytes
/// than the display buffer of the image holds.
pub proof fn lemma_picture_fits(image: Image)
    ensures
        3 * RendererView::fresh(image).picture_size().0 * RendererView::fresh(
            image,
        ).picture_size().1 <= image.bytes(),
{
    let full_width: u64 = image.width;
    let full_height: u64 = image.height;
    let width = full_width as u32;
    let height = full_height as u32;
    assert(full_width as u32 <= full_width) by (bit_vector);
    assert(full_height as u32 <= full_height) by (bit_vector);
    assert(3 * width * height <= 3 * (full_width * full_height)) by (nonlinear_arith)
        requires
            0 <= width <= full_width,
            0 <= height <= full_height,
    ;
}

/// An image whose sides fit in 32 bits gives pictures of exactly its size.
pub proof fn lemma_picture_size_is_exact(image: Image)
    requires
        image.width <= u32::MAX,
        image.height <= u32::MAX,
    ensures
        RendererView::fresh(image).picture_size() == (image.width as nat, image.height as nat),
{
    let full_width: u64 = image.width;
    let full_height: u64 = image.height;
    assert(full_width <= 0xffff_ffff ==> full_width as u32 == full_width) by (bit_vector);
    assert(full_height <= 0xffff_ffff ==> full_height as u32 == full_height) by (bit_vector);
}

/// A readback is idempotent: a second readback of the same pixels changes
/// nothing. It shows the latest pixels only, and it leaves the pass count and
/// the image alone, so it may come before or after a pass is counted.
pub proof fn lemma_readback_is_idempotent(
    renderer: RendererView,
    pixels: Seq<[u8; 3]>,
    earlier: Seq<[u8; 3]>,
)
    ensures
        renderer.read_back(pixels).read_back(pixels) == renderer.read_back(pixels),
        renderer.read_back(earlier).read_back(pixels) == renderer.read_back(pixels),
        renderer.read_back(pixels).accumulated_samples == renderer.accumulated_samples,
        renderer.read_back(pixels).image == renderer.image,
        renderer.counted().read_back(pixels) == renderer.read_back(pixels).counted(),
{
}

/// Passes add up: counting two passes raises the count by two and leaves the
/// display buffer as the last readback made it.
pub proof fn lemma_passes_add_up(renderer: RendererView)
    ensures
        renderer.counted().counted().accumulated_samples == renderer.accumulated_samples + 2,
        renderer.counted().counted().output == renderer.output,
        renderer.counted().inv() == renderer.inv(),
{
}

/// No two pixels share a byte of the display buffer: a byte belongs to the
/// pixel at a third of its place, and is the channel that is left over.
pub proof fn lemma_pixel_bytes_are_disjoint(
    pixel: nat,
    channel: nat,
    other_pixel: nat,
    other_channel: nat,
)
    requires
        channel < 3,
        other_channel < 3,
        3 * pixel + channel == 3 * other_pixel + other_channel,
    ensures
        pixel == other_pixel,
        channel == other_channel,
        (3 * pixel + channel) / 3 == pixel,
        (3 * pixel + channel) % 3 == channel,
{
}

/// Where a readback puts a pixel: channel `channel` of the pixel at column
/// `x` of row `y` is the byte at three times the pixel's row-major index plus
/// the channel, and a readback of one pixel for each pixel of the image fills
/// the display buffer exactly.
pub proof fn lemma_readback_layout(
    renderer: RendererView,
    pixels: Seq<[u8; 3]>,
    x: nat,
    y: nat,
    channel: nat,
)
    requires
        pixels.len() == renderer.image.pixels(),
        x < renderer.image.width,
        y < renderer.image.height,
        channel < 3,
    ensures
        renderer.read_back(pixels).inv(),
        renderer.image.index_of(x, y) < pixels.len(),
        renderer.read_back(pixels).output[3 * (renderer.image.index_of(x, y) as int) + channel]
            == pixels[renderer.image.index_of(x, y) as int][channel as int],
{
    crate::scene::image_data::lemma_index_is_inverse(renderer.image, x, y);
}

} // verus!
