//! A raster of colours and its portable pixmap (PPM) encodings.

use vstd::prelude::*;

use crate::color::{black, Color};

verus! {

/// An image: rows of pixels, top row first.
#[derive(Clone, Debug)]
pub struct Image {
    pub rows: Vec<Vec<Color>>,
}

/// The ASCII decimal digits of `n`, most significant first.
pub open spec fn decimal(n: nat) -> Seq<u8>
    decreases n,
{
    if n < 10 {
        seq![(48 + n) as u8]
    } else {
        decimal(n / 10) + seq![(48 + n % 10) as u8]
    }
}

/// The header `P<kind>\n<width> <height>\n255\n`.
pub open spec fn ppm_header(kind: u8, width: nat, height: nat) -> Seq<u8> {
    seq![80u8, kind, 10u8] + decimal(width) + seq![32u8] + decimal(height) + seq![
        10u8,
        50u8,
        53u8,
        53u8,
        10u8,
    ]
}

/// A row in binary form: three bytes per pixel.
pub open spec fn binary_row(row: Seq<Color>) -> Seq<u8>
    decreases row.len(),
{
    if row.len() == 0 {
        seq![]
    } else {
        let p = row.last();
        binary_row(row.drop_last()) + seq![p.r, p.g, p.b]
    }
}

/// The pixels in binary form, row after row.
pub open spec fn binary_rows(rows: Seq<Seq<Color>>) -> Seq<u8>
    decreases rows.len(),
{
    if rows.len() == 0 {
        seq![]
    } else {
        binary_rows(rows.drop_last()) + binary_row(rows.last())
    }
}

/// A pixel in ASCII form: `r g b` and a space.
pub open spec fn ascii_pixel(p: Color) -> Seq<u8> {
    decimal(p.r as nat) + seq![32u8] + decimal(p.g as nat) + seq![32u8] + decimal(p.b as nat)
        + seq![32u8]
}

/// A row in ASCII form.
pub open spec fn ascii_pixels(row: Seq<Color>) -> Seq<u8>
    decreases row.len(),
{
    if row.len() == 0 {
        seq![]
    } else {
        ascii_pixels(row.drop_last()) + ascii_pixel(row.last())
    }
}

/// The pixels in ASCII form, each row ended by a newline.
pub open spec fn ascii_rows(rows: Seq<Seq<Color>>) -> Seq<u8>
    decreases rows.len(),
{
    if rows.len() == 0 {
        seq![]
    } else {
        ascii_rows(rows.drop_last()) + ascii_pixels(rows.last()) + seq![10u8]
    }
}

impl Image {
    /// The rows as sequences.
    pub open spec fn rows_view(&self) -> Seq<Seq<Color>> {
        Seq::new(self.rows@.len(), |i: int| self.rows@[i]@)
    }

    /// The width: the length of the first row, or zero without rows.
    pub open spec fn width_spec(&self) -> nat {
        if self.rows@.len() == 0 {
            0
        } else {
            self.rows@[0]@.len()
        }
    }

    /// Binary portable pixmap of the image.
    pub open spec fn binary_ppm(&self) -> Seq<u8> {
        ppm_header(54, self.width_spec(), self.rows@.len()) + binary_rows(self.rows_view())
    }

    /// ASCII portable pixmap of the image.
    pub open spec fn ascii_ppm(&self) -> Seq<u8> {
        ppm_header(51, self.width_spec(), self.rows@.len()) + ascii_rows(self.rows_view())
    }

    /// Creates an image of the given size, all black.
    pub fn new(width: usize, height: usize) -> (r: Image)
        ensures
            r.rows@.len() == height,
            forall|y: int|
                0 <= y < height ==> #[trigger] r.rows@[y]@.len() == width && forall|x: int|
                    0 <= x < width ==> #[trigger] r.rows@[y]@[x] == black(),
    {
        let mut rows: Vec<Vec<Color>> = Vec::new();
        let mut y: usize = 0;
        while y < height
            invariant
                y <= height,
                rows@.len() == y,
                forall|j: int|
                    0 <= j < y ==> #[trigger] rows@[j]@.len() == width && forall|x: int|
                        0 <= x < width ==> #[trigger] rows@[j]@[x] == black(),
            decreases height - y,
        {
            let mut row: Vec<Color> = Vec::new();
            let mut x: usize = 0;
            while x < width
                invariant
                    x <= width,
                    row@.len() == x,
                    forall|i: int| 0 <= i < x ==> #[trigger] row@[i] == black(),
                decreases width - x,
            {
                row.push(Color::black());
                x = x + 1;
            }
            rows.push(row);
            y = y + 1;
        }
        Image { rows }
    }

    /// Returns the width of the image: the length of its first row.
    pub fn width(&self) -> (r: usize)
        ensures
            r == self.width_spec(),
    {
        if self.rows.len() == 0 {
            0
        } else {
            self.rows[0].len()
        }
    }

    /// Returns the height of the image: its number of rows.
    pub fn height(&self) -> (r: usize)
        ensures
            r == self.rows@.len(),
    {
        self.rows.len()
    }

    /// Appends the image as binary portable pixmap to `out`.
    pub fn write_binary_ppm(&self, out: &mut Vec<u8>)
        ensures
            final(out)@ == old(out)@ + self.binary_ppm(),
    {
        let ghost start = out@;
        push_header(out, 54, self.width(), self.height());
        let ghost head = out@;
        let mut y: usize = 0;
        while y < self.rows.len()
            invariant
                y <= self.rows@.len(),
                head == start + ppm_header(54, self.width_spec(), self.rows@.len()),
                out@ == head + binary_rows(self.rows_view().subrange(0, y as int)),
            decreases self.rows@.len() - y,
        {
            let row = &self.rows[y];
            let ghost before = out@;
            let mut x: usize = 0;
            while x < row.len()
                invariant
                    x <= row@.len(),
                    out@ == before + binary_row(row@.subrange(0, x as int)),
                decreases row@.len() - x,
            {
                let p = row[x];
                out.push(p.r);
                out.push(p.g);
                out.push(p.b);
                assert(row@.subrange(0, x + 1).drop_last() =~= row@.subrange(0, x as int));
                assert(out@ =~= before + binary_row(row@.subrange(0, x + 1)));
                x = x + 1;
            }
            assert(row@.subrange(0, row@.len() as int) =~= row@);
            assert(self.rows_view().subrange(0, y + 1).drop_last() =~= self.rows_view().subrange(
                0,
                y as int,
            ));
            assert(out@ =~= head + binary_rows(self.rows_view().subrange(0, y + 1)));
            y = y + 1;
        }
        assert(self.rows_view().subrange(0, self.rows@.len() as int) =~= self.rows_view());
        assert(out@ =~= start + self.binary_ppm());
    }

    /// Appends the image as ASCII portable pixmap to `out`.
    pub fn write_ascii_ppm(&self, out: &mut Vec<u8>)
        ensures
            final(out)@ == old(out)@ + self.ascii_ppm(),
    {
        let ghost start = out@;
        push_header(out, 51, self.width(), self.height());
        let ghost head = out@;
        let mut y: usize = 0;
        while y < self.rows.len()
            invariant
                y <= self.rows@.len(),
                head == start + ppm_header(51, self.width_spec(), self.rows@.len()),
                out@ == head + ascii_rows(self.rows_view().subrange(0, y as int)),
            decreases self.rows@.len() - y,
        {
            let row = &self.rows[y];
            let ghost before = out@;
            let mut x: usize = 0;
            while x < row.len()
                invariant
                    x <= row@.len(),
                    out@ == before + ascii_pixels(row@.subrange(0, x as int)),
                decreases row@.len() - x,
            {
                let p = row[x];
                let ghost mid = out@;
                push_decimal(out, p.r as u64);
                out.push(32);
                push_decimal(out, p.g as u64);
                out.push(32);
                push_decimal(out, p.b as u64);
                out.push(32);
                assert(out@ =~= mid + ascii_pixel(p));
                assert(row@.subrange(0, x + 1).drop_last() =~= row@.subrange(0, x as int));
                assert(out@ =~= before + ascii_pixels(row@.subrange(0, x + 1)));
                x = x + 1;
            }
            out.push(10);
            assert(row@.subrange(0, row@.len() as int) =~= row@);
            assert(self.rows_view().subrange(0, y + 1).drop_last() =~= self.rows_view().subrange(
                0,
                y as int,
            ));
            assert(out@ =~= head + ascii_rows(self.rows_view().subrange(0, y + 1)));
            y = y + 1;
        }
        assert(self.rows_view().subrange(0, self.rows@.len() as int) =~= self.rows_view());
        assert(out@ =~= start + self.ascii_ppm());
    }
}

/// Appends the decimal digits of `n`.
fn push_decimal(out: &mut Vec<u8>, n: u64)
    ensures
        final(out)@ == old(out)@ + decimal(n as nat),
    decreases n,
{
    if n >= 10 {
        push_decimal(out, n / 10);
    }
    out.push((48 + n % 10) as u8);
    assert(final(out)@ =~= old(out)@ + decimal(n as nat));
}

/// Appends a pixmap header.
fn push_header(out: &mut Vec<u8>, kind: u8, width: usize, height: usize)
    ensures
        final(out)@ == old(out)@ + ppm_header(kind, width as nat, height as nat),
{
    out.push(80);
    out.push(kind);
    out.push(10);
    push_decimal(out, width as u64);
    out.push(32);
    push_decimal(out, height as u64);
    out.push(10);
    out.push(50);
    out.push(53);
    out.push(53);
    out.push(10);
    assert(final(out)@ =~= old(out)@ + ppm_header(kind, width as nat, height as nat));
}

} // verus!
