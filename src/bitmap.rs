//! A decoded image held as 8-bit RGBA samples, row by row.

use vstd::prelude::*;

verus! {

/// The four samples of pixel `(x, y)` in row-major RGBA data of the given width.
pub open spec fn pixel_of(data: Seq<u8>, width: int, x: int, y: int) -> Seq<u8> {
    data.subrange((y * width + x) * 4, (y * width + x) * 4 + 4)
}

/// The pixel of an empty canvas: black, opaque unless the canvas has an
/// alpha channel.
pub open spec fn blank_pixel(alpha: bool) -> Seq<u8> {
    seq![0u8, 0u8, 0u8, if alpha { 0u8 } else { 255u8 }]
}

/// An image of `width` by `height` pixels. `data` holds four samples (red,
/// green, blue, alpha) for each pixel, rows from the top. `alpha` is the color
/// mode: without it the image is plain RGB and its alpha samples carry nothing.
#[derive(Clone, Debug)]
pub struct Bitmap {
    pub width: u32,
    pub height: u32,
    pub alpha: bool,
    pub data: Vec<u8>,
}

/// A product of two 32-bit values stays below 2^64.
proof fn lemma_u32_product(a: u32, b: u32)
    ensures
        0 <= a as int * b as int <= 0xFFFF_FFFF * 0xFFFF_FFFF,
{
    assert(0 <= a as int * b as int <= 0xFFFF_FFFF * 0xFFFF_FFFF) by (nonlinear_arith)
        requires
            a <= 0xFFFF_FFFF,
            b <= 0xFFFF_FFFF,
    ;
}

impl Bitmap {
    /// The sample buffer holds exactly four samples for each pixel.
    pub open spec fn wf(&self) -> bool {
        self.data@.len() == self.width as int * self.height as int * 4
    }

    pub open spec fn pixel(&self, x: int, y: int) -> Seq<u8> {
        pixel_of(self.data@, self.width as int, x, y)
    }

    pub open spec fn in_bounds(&self, x: int, y: int) -> bool {
        0 <= x < self.width && 0 <= y < self.height
    }

    /// An image over the given samples, or `None` where their number is not
    /// four for each pixel.
    pub fn new(width: u32, height: u32, alpha: bool, data: Vec<u8>) -> (r: Option<Bitmap>)
        ensures
            r is Some <==> data@.len() == width as int * height as int * 4,
            r is Some ==> r->Some_0.wf() && r->Some_0.width == width && r->Some_0.height
                == height && r->Some_0.alpha == alpha && r->Some_0.data@ == data@,
    {
        proof {
            lemma_u32_product(width, height);
        }
        let n: u128 = width as u128 * height as u128 * 4;
        if data.len() as u128 == n {
            Some(Bitmap { width, height, alpha, data })
        } else {
            None
        }
    }

    /// A canvas of the given size filled with `blank_pixel(alpha)`, or `None`
    /// where its samples would not fit in memory's address range.
    pub fn blank(width: u32, height: u32, alpha: bool) -> (r: Option<Bitmap>)
        ensures
            r is Some <==> width as int * height as int * 4 <= usize::MAX,
            r is Some ==> r->Some_0.wf() && r->Some_0.width == width && r->Some_0.height
                == height && r->Some_0.alpha == alpha,
            r is Some ==> forall|x: int, y: int|
                r->Some_0.in_bounds(x, y) ==> #[trigger] r->Some_0.pixel(x, y) == blank_pixel(
                    alpha,
                ),
    {
        proof {
            lemma_u32_product(width, height);
        }
        let total: u128 = width as u128 * height as u128;
        if total * 4 > usize::MAX as u128 {
            return None;
        }
        let n: usize = total as usize;
        let a: u8 = if alpha { 0 } else { 255 };
        let mut data: Vec<u8> = Vec::new();
        let mut i: usize = 0;
        while i < n
            invariant
                i <= n,
                n * 4 <= usize::MAX,
                data@.len() == i * 4,
                forall|k: int| 0 <= k < i ==> #[trigger] data@.subrange(k * 4, k * 4 + 4)
                    == seq![0u8, 0u8, 0u8, a],
            decreases n - i,
        {
            let ghost before = data@;
            data.push(0);
            data.push(0);
            data.push(0);
            data.push(a);
            assert forall|k: int| 0 <= k < i + 1 implies #[trigger] data@.subrange(k * 4, k * 4 + 4)
                == seq![0u8, 0u8, 0u8, a] by {
                if k < i {
                    assert(data@.subrange(k * 4, k * 4 + 4) =~= before.subrange(k * 4, k * 4 + 4));
                } else {
                    assert(data@.subrange(k * 4, k * 4 + 4) =~= seq![0u8, 0u8, 0u8, a]);
                }
            }
            i = i + 1;
        }
        let r = Bitmap { width, height, alpha, data };
        assert forall|x: int, y: int| r.in_bounds(x, y) implies #[trigger] r.pixel(x, y)
            == blank_pixel(alpha) by {
            let k = y * width + x;
            assert(0 <= k < n) by (nonlinear_arith)
                requires
                    0 <= x < width,
                    0 <= y < height,
                    k == y * width + x,
                    n == width * height,
            ;
            assert(data@.subrange(k * 4, k * 4 + 4) == seq![0u8, 0u8, 0u8, a]);
            assert(blank_pixel(alpha) =~= seq![0u8, 0u8, 0u8, a]);
        }
        Some(r)
    }
}

} // verus!
