use vstd::prelude::*;

verus! {

/// The fixed description of one render: the pixel grid, how many passes the
/// caller intends to accumulate, and the bounce budget of every light path.
#[derive(Clone, Copy, Debug, PartialEq, Eq, Structural)]
pub struct Image {
    pub width: u64,
    pub height: u64,
    pub samples: u64,
    pub max_depth: u64,
}

impl Image {
    /// Number of pixels of the grid.
    pub open spec fn pixels(&self) -> nat {
        (self.width * self.height) as nat
    }

    /// Number of bytes of an interleaved 8-bit RGB buffer for the grid.
    pub open spec fn bytes(&self) -> nat {
        3 * self.pixels()
    }

    /// Column and row of the pixel at `index`, rows laid out one after another.
    pub open spec fn position(&self, index: nat) -> (nat, nat) {
        (index % (self.width as nat), index / (self.width as nat))
    }

    /// Place of the pixel at column `x` of row `y` in the row-major order.
    pub open spec fn index_of(&self, x: nat, y: nat) -> nat {
        (y * self.width + x) as nat
    }

    /// An image of `width` by `height` pixels, to be rendered in `samples`
    /// passes with at most `max_depth` bounces on every path.
    pub fn new(width: u64, height: u64, samples: u64, max_depth: u64) -> (image: Self)
        ensures
            image == (Image { width, height, samples, max_depth }),
    {
        Image { width, height, samples, max_depth }
    }

    /// Number of pixels, or `None` when this machine cannot address one slot
    /// for each.
    pub fn pixel_count(&self) -> (count: Option<usize>)
        ensures
            count is Some <==> self.pixels() <= usize::MAX,
            count is Some ==> count->0 == self.pixels(),
    {
        match self.width.checked_mul(self.height) {
            None => None,
            Some(pixels) => if pixels <= usize::MAX as u64 {
                Some(pixels as usize)
            } else {
                None
            },
        }
    }

    /// Length of the interleaved RGB byte buffer, or `None` when three bytes
    /// for each pixel are more than this machine can address.
    pub fn buffer_len(&self) -> (len: Option<usize>)
        ensures
            len is Some <==> self.bytes() <= usize::MAX,
            len is Some ==> len->0 == self.bytes(),
    {
        match self.width.checked_mul(self.height) {
            None => None,
            Some(pixels) => match pixels.checked_mul(3) {
                None => None,
                Some(bytes) => if bytes <= usize::MAX as u64 {
                    Some(bytes as usize)
                } else {
                    None
                },
            },
        }
    }

    /// Column and row of the pixel stored at `index`.
    pub fn pixel_position(&self, index: u64) -> (at: (u64, u64))
        requires
            self.width > 0,
        ensures
            (at.0 as nat, at.1 as nat) == self.position(index as nat),
            at.0 < self.width,
            self.index_of(at.0 as nat, at.1 as nat) == index,
            index < self.pixels() ==> at.1 < self.height,
    {
        let x: u64 = index % self.width;
        let y: u64 = index / self.width;
        proof {
            lemma_position_is_inverse(*self, index as nat);
        }
        (x, y)
    }
}

/// Splitting an index into column and row loses nothing: the row-major place
/// of the position is the index again, and an index inside the grid lands on
/// a row inside the grid.
pub proof fn lemma_position_is_inverse(image: Image, index: nat)
    requires
        image.width > 0,
    ensures
        image.position(index).0 < image.width,
        image.index_of(image.position(index).0, image.position(index).1) == index,
        index < image.pixels() ==> image.position(index).1 < image.height,
{
    let w = image.width as int;
    let i = index as int;
    vstd::arithmetic::div_mod::lemma_fundamental_div_mod(i, w);
    vstd::arithmetic::div_mod::lemma_mod_bound(i, w);
    assert(w * (i / w) == (i / w) * w) by (nonlinear_arith);
    if index < image.pixels() {
        let h = image.height as int;
        assert(i / w < h) by (nonlinear_arith)
            requires
                0 < w,
                0 <= i < w * h,
        ;
    }
}

/// Every position of the grid is the position of exactly its row-major index.
pub proof fn lemma_index_is_inverse(image: Image, x: nat, y: nat)
    requires
        x < image.width,
        y < image.height,
    ensures
        image.index_of(x, y) < image.pixels(),
        image.position(image.index_of(x, y)) == (x, y),
{
    let w = image.width as int;
    let h = image.height as int;
    let xi = x as int;
    let yi = y as int;
    assert(yi * w + xi < w * h) by (nonlinear_arith)
        requires
            0 <= xi < w,
            0 <= yi < h,
    ;
    vstd::arithmetic::div_mod::lemma_fundamental_div_mod_converse(yi * w + xi, w, yi, xi);
}

} // verus!
