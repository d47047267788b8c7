use image::ImageBuffer;
use image::Rgb;
use vstd::prelude::*;

verus! {

/// An 8-bit RGB picture of the `image` crate over a `Vec` of bytes. What it
/// holds is known only through `picture_bytes` and `picture_dimensions`.
#[verifier::external_body]
pub struct Picture {
    buffer: ImageBuffer<Rgb<u8>, Vec<u8>>,
}

/// The bytes that a picture holds, as its container holds them: three for
/// each pixel, rows one after another.
pub uninterp spec fn picture_bytes(picture: Picture) -> Seq<u8>;

/// Width and height of a picture, in pixels.
pub uninterp spec fn picture_dimensions(picture: Picture) -> (nat, nat);

/// The rows of an interleaved RGB picture of `width` by `height` pixels in
/// the opposite order: the last row comes first. Bytes of `bytes` beyond the
/// picture are left out.
pub open spec fn flipped_rows(bytes: Seq<u8>, width: nat, height: nat) -> Seq<u8> {
    let row = 3 * (width as int);
    Seq::new((row * height) as nat, |i: int| bytes[(height - 1 - i / row) * row + i % row])
}

/// `image::ImageBuffer::from_raw` for 8-bit RGB over a `Vec`: the picture is
/// made exactly when `buf` holds three bytes for each of `width` times
/// `height` pixels; it then holds `buf` as it is, longer or not, and the
/// dimensions given.
#[verifier::external_body]
pub(crate) fn picture_from_raw(width: u32, height: u32, buf: Vec<u8>) -> (picture: Option<Picture>)
    ensures
        picture is Some <==> 3 * width * height <= buf@.len(),
        picture matches Some(made) ==> picture_bytes(made) == buf@ && picture_dimensions(made) == (
            width as nat,
            height as nat,
        ),
{
    match ImageBuffer::from_raw(width, height, buf) {
        Some(buffer) => Some(Picture { buffer }),
        None => None,
    }
}

/// `image::imageops::flip_vertical` on an 8-bit RGB picture: a new picture of
/// the same dimensions that holds three bytes for each pixel and nothing
/// more, with the rows of the given one in the opposite order.
#[verifier::external_body]
pub(crate) fn picture_flip_vertical(picture: &Picture) -> (flipped: Picture)
    requires
        3 * picture_dimensions(*picture).0 * picture_dimensions(*picture).1 <= picture_bytes(
            *picture,
        ).len(),
    ensures
        picture_dimensions(flipped) == picture_dimensions(*picture),
        picture_bytes(flipped) == flipped_rows(
            picture_bytes(*picture),
            picture_dimensions(*picture).0,
            picture_dimensions(*picture).1,
        ),
{
    Picture { buffer: image::imageops::flip_vertical(&picture.buffer) }
}

/// `image::ImageBuffer::dimensions`: width and height as the picture was
/// made with them.
#[verifier::external_body]
pub(crate) fn picture_size(picture: &Picture) -> (size: (u32, u32))
    ensures
        (size.0 as nat, size.1 as nat) == picture_dimensions(*picture),
{
    picture.buffer.dimensions()
}

/// `image::ImageBuffer::into_raw`: the container of the picture, as it is.
#[verifier::external_body]
pub(crate) fn picture_into_raw(picture: Picture) -> (raw: Vec<u8>)
    ensures
        raw@ == picture_bytes(picture),
{
    picture.buffer.into_raw()
}

impl Picture {
    /// Width and height in pixels.
    pub fn dimensions(&self) -> (size: (u32, u32))
        ensures
            (size.0 as nat, size.1 as nat) == picture_dimensions(*self),
    {
        picture_size(self)
    }

    /// Gives up the picture for its bytes.
    pub fn into_raw(self) -> (raw: Vec<u8>)
        ensures
            raw@ == picture_bytes(self),
    {
        picture_into_raw(self)
    }
}

/// What a vertical flip does to a pixel: channel `channel` of the pixel at
/// column `x` of row `y` of the flipped picture is that channel of the pixel
/// at column `x` of the row as far from the bottom as `y` is from the top.
pub proof fn lemma_flip_moves_rows(
    bytes: Seq<u8>,
    width: nat,
    height: nat,
    x: nat,
    y: nat,
    channel: nat,
)
    requires
        x < width,
        y < height,
        channel < 3,
    ensures
        flipped_rows(bytes, width, height).len() == 3 * width * height,
        3 * (y * width + x) + channel < 3 * width * height,
        flipped_rows(bytes, width, height)[(3 * (y * width + x) + channel) as int] == bytes[3 * ((
        height - 1 - y) * width + x) + channel],
{
    let row = 3 * (width as int);
    let within = 3 * (x as int) + channel;
    let i = (3 * (y * width + x) + channel) as int;
    assert(i == (y as int) * row + within) by (nonlinear_arith)
        requires
            row == 3 * (width as int),
            within == 3 * (x as int) + channel,
            i == 3 * (y * width + x) + channel,
    ;
    assert(i < row * height && 3 * width * height == row * height) by (nonlinear_arith)
        requires
            i == (y as int) * row + within,
            0 <= within < row,
            y < height,
            row == 3 * (width as int),
    ;
    vstd::arithmetic::div_mod::lemma_fundamental_div_mod_converse(i, row, y as int, within);
    assert((height - 1 - y) * row + within == 3 * ((height - 1 - y) * width + x) + channel)
        by (nonlinear_arith)
        requires
            row == 3 * (width as int),
            within == 3 * (x as int) + channel,
    ;
}

/// Flipping twice gives the picture back, for a picture that holds exactly
/// its pixels.
pub proof fn lemma_flip_twice(bytes: Seq<u8>, width: nat, height: nat)
    requires
        bytes.len() == 3 * width * height,
    ensures
        flipped_rows(flipped_rows(bytes, width, height), width, height) == bytes,
{
    let row = 3 * (width as int);
    let once = flipped_rows(bytes, width, height);
    let twice = flipped_rows(once, width, height);
    assert(3 * width * height == row * height) by (nonlinear_arith)
        requires
            row == 3 * (width as int),
    ;
    assert forall|i: int| 0 <= i < bytes.len() implies twice[i] == bytes[i] by {
        let y = i / row;
        let within = i % row;
        assert(row > 0) by (nonlinear_arith)
            requires
                0 <= i < row * height,
                row >= 0,
        ;
        vstd::arithmetic::div_mod::lemma_fundamental_div_mod(i, row);
        vstd::arithmetic::div_mod::lemma_mod_bound(i, row);
        assert(0 <= y < height) by (nonlinear_arith)
            requires
                i == row * y + within,
                0 <= within < row,
                0 <= i < row * height,
        ;
        let j = (height - 1 - y) * row + within;
        assert(0 <= j < row * height) by (nonlinear_arith)
            requires
                j == (height - 1 - y) * row + within,
                0 <= within < row,
                0 <= y < height,
        ;
        vstd::arithmetic::div_mod::lemma_fundamental_div_mod_converse(
            j,
            row,
            height - 1 - y,
            within,
        );
        assert(twice[i] == once[j]);
        assert(once[j] == bytes[(height - 1 - (height - 1 - y)) * row + within]);
        assert((height - 1 - (height - 1 - y)) * row + within == i) by (nonlinear_arith)
            requires
                i == row * y + within,
        ;
    }
    assert(twice =~= bytes);
}

} // verus!
