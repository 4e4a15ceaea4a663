//! Monochrome bitmap display: 64 columns by 32 rows, one bit per pixel.
//!
//! Each row is packed into one 64-bit word; column 0 is the row word's
//! most-significant bit.  Coordinates wrap modulo the screen dimensions
//! before indexing, so every `(x, y)` pair of bytes addresses a pixel.

use vstd::prelude::*;

verus! {

/// The single-bit mask selecting column `x mod 64` within a row word.
pub open spec fn col_mask(x: u8) -> u64 {
    1u64 << ((63 - x % 64) as u64)
}

/// The state of the pixel at column `x mod 64`, row `y mod 32`.
pub open spec fn pixel_at(rows: Seq<u64>, x: u8, y: u8) -> bool {
    rows[y as int % 32] & col_mask(x) != 0
}

/// `rows` with the pixel at column `x mod 64`, row `y mod 32` flipped.
pub open spec fn toggled(rows: Seq<u64>, x: u8, y: u8) -> Seq<u64> {
    rows.update(y as int % 32, rows[y as int % 32] ^ col_mask(x))
}

/// An all-off framebuffer: 32 rows of zero.
pub open spec fn blank_rows() -> Seq<u64> {
    Seq::new(32, |i: int| 0u64)
}

/// `post` differs from `pre` in exactly the pixel at column `x mod 64`,
/// row `y mod 32`, which is flipped.
pub open spec fn flips_exactly(pre: Seq<u64>, post: Seq<u64>, x: u8, y: u8) -> bool {
    forall|i: u8, j: u8| #![trigger pixel_at(post, i, j)]
        pixel_at(post, i, j) == (if i % 64 == x % 64 && j % 32 == y % 32 {
            !pixel_at(pre, i, j)
        } else {
            pixel_at(pre, i, j)
        })
}

proof fn lemma_zero_row_dark()
    by (bit_vector)
    ensures
        forall|m: u64| #[trigger] (0u64 & m) == 0,
{
}

/// Flipping one bit of a row word changes that bit and no other.
proof fn lemma_toggled_pixel(rows: Seq<u64>, x: u8, y: u8, i: u8, j: u8)
    requires
        rows.len() == 32,
    ensures
        pixel_at(toggled(rows, x, y), i, j) == (if i % 64 == x % 64 && j % 32 == y % 32 {
            !pixel_at(rows, i, j)
        } else {
            pixel_at(rows, i, j)
        }),
{
    let ry = y as int % 32;
    let rj = j as int % 32;
    let sx = (63 - x % 64) as u64;
    let si = (63 - i % 64) as u64;
    if rj == ry {
        let w = rows[ry];
        if i % 64 == x % 64 {
            assert(((w ^ (1u64 << sx)) & (1u64 << sx) != 0) <==> !(w & (1u64 << sx) != 0))
                by (bit_vector)
                requires
                    sx < 64,
            ;
        } else {
            assert((w ^ (1u64 << sx)) & (1u64 << si) == w & (1u64 << si))
                by (bit_vector)
                requires
                    si < 64,
                    sx < 64,
                    si != sx,
            ;
        }
    }
}

/// Toggling the same coordinates twice restores the framebuffer: the
/// pixel-toggle operation is an involution.
pub proof fn lemma_toggle_involution(rows: Seq<u64>, x: u8, y: u8)
    requires
        rows.len() == 32,
    ensures
        toggled(toggled(rows, x, y), x, y) == rows,
{
    let r = y as int % 32;
    let m = col_mask(x);
    let w = rows[r];
    assert((w ^ m) ^ m == w) by (bit_vector);
    assert(toggled(toggled(rows, x, y), x, y) =~= rows);
}

/// The monochrome bitmap: 32 packed row words.
pub struct Screen {
    data: Vec<u64>,
}

impl View for Screen {
    type V = Seq<u64>;

    closed spec fn view(&self) -> Seq<u64> {
        self.data@
    }
}

impl Screen {
    /// The framebuffer always holds exactly 32 row words.
    pub open spec fn wf(&self) -> bool {
        self@.len() == 32
    }

    fn zero_rows() -> (r: Vec<u64>)
        ensures
            r@ == blank_rows(),
    {
        let mut data: Vec<u64> = Vec::new();
        let mut i: usize = 0;
        while i < 32
            invariant
                i == data@.len(),
                i <= 32,
                forall|k: int| 0 <= k < i ==> data@[k] == 0u64,
            decreases 32 - i,
        {
            data.push(0u64);
            i = i + 1;
        }
        proof {
            assert(data@ =~= blank_rows());
        }
        data
    }

    /// A display with every pixel off.
    pub fn new() -> (r: Screen)
        ensures
            r.wf(),
            r@ == blank_rows(),
            forall|i: u8, j: u8| !(#[trigger] pixel_at(r@, i, j)),
    {
        let r = Screen { data: Self::zero_rows() };
        proof {
            lemma_zero_row_dark();
        }
        r
    }

    /// A display whose 32 row words are given directly.
    pub fn build(data: [u64; 32]) -> (r: Screen)
        ensures
            r.wf(),
            r@ == data@,
    {
        let mut rows: Vec<u64> = Vec::new();
        let mut i: usize = 0;
        while i < 32
            invariant
                i == rows@.len(),
                i <= 32,
                forall|k: int| 0 <= k < i ==> rows@[k] == data@[k],
            decreases 32 - i,
        {
            rows.push(data[i]);
            i = i + 1;
        }
        proof {
            assert(rows@ =~= data@);
        }
        Screen { data: rows }
    }

    /// Turn every pixel off.
    pub fn clear_screen(&mut self)
        ensures
            final(self).wf(),
            final(self)@ == blank_rows(),
            forall|i: u8, j: u8| !(#[trigger] pixel_at(final(self)@, i, j)),
    {
        self.data = Self::zero_rows();
        proof {
            lemma_zero_row_dark();
        }
    }

    /// Flip the pixel at column `xcor mod 64`, row `ycor mod 32`; every
    /// other pixel keeps its state.
    pub fn toggle_pixel(&mut self, xcor: u8, ycor: u8)
        requires
            old(self).wf(),
        ensures
            final(self).wf(),
            final(self)@ == toggled(old(self)@, xcor, ycor),
            flips_exactly(old(self)@, final(self)@, xcor, ycor),
    {
        let shift: u8 = 63 - xcor % 64;
        let row: usize = (ycor % 32) as usize;
        let mask: u64 = 1u64 << (shift as u64);
        let w: u64 = self.data[row];
        self.data[row] = w ^ mask;
        proof {
            assert(final(self)@ =~= toggled(old(self)@, xcor, ycor));
            assert forall|i: u8, j: u8|
                #[trigger] pixel_at(final(self)@, i, j) == (if i % 64 == xcor % 64 && j % 32
                    == ycor % 32 {
                    !pixel_at(old(self)@, i, j)
                } else {
                    pixel_at(old(self)@, i, j)
                }) by {
                lemma_toggled_pixel(old(self)@, xcor, ycor, i, j);
            }
        }
    }

    /// Read the pixel at column `xcor mod 64`, row `ycor mod 32`.
    pub fn get_pixel(&self, xcor: u8, ycor: u8) -> (r: bool)
        requires
            self.wf(),
        ensures
            r == pixel_at(self@, xcor, ycor),
    {
        let shift: u8 = 63 - xcor % 64;
        let row: usize = (ycor % 32) as usize;
        let mask: u64 = 1u64 << (shift as u64);
        let result = self.data[row] & mask;
        result > 0
    }

    /// A pure projection of the bitmap for an external presentation
    /// layer: for each of the 32 rows, the 64 pixel states left to
    /// right.
    pub fn render(&self) -> (r: Vec<Vec<bool>>)
        requires
            self.wf(),
        ensures
            r@.len() == 32,
            forall|j: int| 0 <= j < 32 ==> (#[trigger] r@[j])@.len() == 64,
            forall|i: u8, j: u8| i < 64 && j < 32 ==> r@[j as int]@[i as int] == pixel_at(
                self@,
                i,
                j,
            ),
    {
        let mut rows: Vec<Vec<bool>> = Vec::new();
        let mut j: u8 = 0;
        while j < 32
            invariant
                self.wf(),
                j <= 32,
                rows@.len() == j,
                forall|k: int| 0 <= k < j ==> (#[trigger] rows@[k])@.len() == 64,
                forall|i: u8, k: u8| i < 64 && k < j ==> rows@[k as int]@[i as int] == pixel_at(
                    self@,
                    i,
                    k,
                ),
            decreases 32 - j,
        {
            let mut row: Vec<bool> = Vec::new();
            let mut i: u8 = 0;
            while i < 64
                invariant
                    self.wf(),
                    j < 32,
                    i <= 64,
                    row@.len() == i,
                    forall|k: u8| k < i ==> row@[k as int] == pixel_at(self@, k, j),
                decreases 64 - i,
            {
                row.push(self.get_pixel(i, j));
                i = i + 1;
            }
            rows.push(row);
            j = j + 1;
        }
        rows
    }
}

} // verus!
