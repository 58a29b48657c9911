//! The pixel grid that a render fills, and its plain-text encoding.

use vstd::prelude::*;
use vstd::string::StringExecFns;
use crate::mods::decimal::{decimal_text, push_decimal};
use crate::mods::text::chars_of;

verus! {

/// One pixel: red, green and blue, each from 0 to 255.
pub type Pixel = (u8, u8, u8);

/// The colour that a new image is filled with.
pub open spec fn blank_pixel() -> Pixel {
    (255u8, 255u8, 255u8)
}

/// A grid of pixels, stored row by row. All rows have the same length.
#[derive(Debug)]
pub struct ImageRGB {
    data: Vec<Vec<Pixel>>,
}

/// The rows of a grid, as sequences.
pub open spec fn rows_of(data: Seq<Vec<Pixel>>) -> Seq<Seq<Pixel>> {
    Seq::new(data.len(), |y: int| data[y]@)
}

/// All rows of `rows` are as long as the first, and the pixels can be counted
/// in a `usize`.
pub open spec fn is_grid(rows: Seq<Seq<Pixel>>) -> bool {
    &&& forall|y: int| 0 <= y < rows.len() ==> (#[trigger] rows[y]).len() == rows[0].len()
    &&& rows.len() > 0 ==> rows.len() * rows[0].len() <= usize::MAX
}

/// The first lines of the text: the format's name, the width and the height,
/// and the largest value of a colour.
pub open spec fn ppm_header(width: nat, height: nat) -> Seq<char> {
    "P3\n"@ + decimal_text(width) + " "@ + decimal_text(height) + "\n255\n"@
}

/// The line of one pixel: its three colours in decimal, a space between them.
pub open spec fn ppm_pixel(p: Pixel) -> Seq<char> {
    decimal_text(p.0 as nat) + " "@ + decimal_text(p.1 as nat) + " "@ + decimal_text(p.2 as nat)
        + "\n"@
}

/// The lines of the pixels of one row, from left to right.
pub open spec fn ppm_row(row: Seq<Pixel>) -> Seq<char>
    decreases row.len(),
{
    if row.len() == 0 {
        Seq::empty()
    } else {
        ppm_row(row.drop_last()) + ppm_pixel(row.last())
    }
}

/// The lines of the pixels of all rows, from the first row to the last.
pub open spec fn ppm_rows(rows: Seq<Seq<Pixel>>) -> Seq<char>
    decreases rows.len(),
{
    if rows.len() == 0 {
        Seq::empty()
    } else {
        ppm_rows(rows.drop_last()) + ppm_row(rows.last())
    }
}

/// The whole text of an image with at least one row.
pub open spec fn ppm_text(rows: Seq<Seq<Pixel>>) -> Seq<char>
    recommends
        rows.len() > 0,
{
    ppm_header(rows[0].len(), rows.len()) + ppm_rows(rows)
}

/// The ending of the name of an image file.
pub open spec fn ppm_extension() -> Seq<char> {
    seq!['.', 'p', 'p', 'm']
}

/// The name of the file that an image is saved to: `name` itself where it
/// ends in `.ppm`, else `name` with that ending added.
pub open spec fn ppm_file_name_of(name: Seq<char>) -> Seq<char> {
    if ppm_extension().is_suffix_of(name) {
        name
    } else {
        name + ppm_extension()
    }
}

/// The name of the file that an image is saved to under `filename`.
pub fn ppm_file_name(filename: &str) -> (r: String)
    ensures
        r@ == ppm_file_name_of(filename@),
{
    let chars = chars_of(filename);
    let n = chars.len();
    let ends = n >= 4 && chars[n - 4] == '.' && chars[n - 3] == 'p' && chars[n - 2] == 'p' && chars[n
        - 1] == 'm';
    proof {
        reveal_strlit(".ppm");
        let ext = ppm_extension();
        if ends {
            assert(filename@.subrange(n - 4, n as int) =~= ext);
        } else if n >= 4 {
            let tail = filename@.subrange(n - 4, n as int);
            assert(tail[0] == filename@[n - 4]);
            assert(tail[1] == filename@[n - 3]);
            assert(tail[2] == filename@[n - 2]);
            assert(tail[3] == filename@[n - 1]);
        }
        assert(".ppm"@ =~= ext);
    }
    if ends {
        String::from_str(filename)
    } else {
        String::from_str(filename).concat(".ppm")
    }
}

impl View for ImageRGB {
    type V = Seq<Seq<Pixel>>;

    closed spec fn view(&self) -> Seq<Seq<Pixel>> {
        rows_of(self.data@)
    }
}

impl Clone for ImageRGB {
    /// An image with the same pixels.
    fn clone(&self) -> (r: Self)
        ensures
            r@ == self@,
    {
        let mut data: Vec<Vec<Pixel>> = Vec::new();
        let height = self.data.len();
        let mut y: usize = 0;
        while y < height
            invariant
                y <= height,
                height == self.data@.len(),
                data@.len() == y,
                forall|j: int| 0 <= j < y ==> (#[trigger] data@[j])@ == self.data@[j]@,
            decreases height - y,
        {
            let row = &self.data[y];
            let width = row.len();
            let mut line: Vec<Pixel> = Vec::new();
            let mut x: usize = 0;
            while x < width
                invariant
                    x <= width,
                    width == row@.len(),
                    line@ == row@.take(x as int),
                decreases width - x,
            {
                line.push(row[x]);
                assert(line@ =~= row@.take(x + 1));
                x = x + 1;
            }
            assert(row@.take(width as int) =~= row@);
            data.push(line);
            y = y + 1;
        }
        let r = ImageRGB { data };
        assert(r@ =~= self@);
        r
    }
}

impl ImageRGB {
    /// The invariant of the type: its rows form a grid.
    pub open spec fn wf(&self) -> bool {
        is_grid(self@)
    }

    /// The number of rows.
    pub open spec fn height(&self) -> nat {
        self@.len()
    }

    /// The length of the rows; zero for an image without rows.
    pub open spec fn width(&self) -> nat {
        if self@.len() > 0 {
            self@[0].len()
        } else {
            0
        }
    }

    /// An image of `h` rows of `w` pixels, all of them white.
    pub fn new(w: u32, h: u32) -> (r: Self)
        requires
            w * h <= usize::MAX,
        ensures
            r.wf(),
            r@.len() == h,
            forall|y: int| 0 <= y < h ==> (#[trigger] r@[y]).len() == w,
            forall|y: int, x: int| 0 <= y < h && 0 <= x < w ==> (#[trigger] r@[y][x]) == blank_pixel(),
    {
        let mut data: Vec<Vec<Pixel>> = Vec::new();
        let mut y: u32 = 0;
        while y < h
            invariant
                y <= h,
                data@.len() == y,
                forall|j: int| 0 <= j < y ==> (#[trigger] data@[j])@.len() == w,
                forall|j: int, i: int| 0 <= j < y && 0 <= i < w ==> (#[trigger] data@[j]@[i]) == blank_pixel(),
            decreases h - y,
        {
            let mut line: Vec<Pixel> = Vec::new();
            let mut x: u32 = 0;
            while x < w
                invariant
                    x <= w,
                    line@.len() == x,
                    forall|i: int| 0 <= i < x ==> (#[trigger] line@[i]) == blank_pixel(),
                decreases w - x,
            {
                line.push((255u8, 255u8, 255u8));
                x = x + 1;
            }
            data.push(line);
            y = y + 1;
        }
        let image = ImageRGB { data };
        proof {
            assert forall|j: int| 0 <= j < image@.len() implies (#[trigger] image@[j]).len() == w by {
                assert(image@[j] == image.data@[j]@);
            }
            assert(h * w == w * h) by (nonlinear_arith);
            assert forall|j: int, i: int| 0 <= j < h && 0 <= i < w implies (#[trigger] image@[j][i])
                == blank_pixel() by {
                assert(image@[j] == image.data@[j]@);
            }
        }
        image
    }

    /// The length of the rows.
    pub fn get_width(&self) -> (r: usize)
        requires
            self.wf(),
            self.height() > 0,
        ensures
            r == self.width(),
    {
        self.data[0].len()
    }

    /// The number of rows.
    pub fn get_height(&self) -> (r: usize)
        ensures
            r == self.height(),
    {
        self.data.len()
    }

    /// The number of pixels.
    pub fn get_pixel_count(&self) -> (r: usize)
        requires
            self.wf(),
            self.height() > 0,
        ensures
            r == self.width() * self.height(),
    {
        proof {
            assert(self.data@.len() * self.data@[0]@.len() == self.data@[0]@.len() * self.data@.len()) by (nonlinear_arith);
        }
        self.data.len() * self.data[0].len()
    }

    /// The pixel in column `x` of row `y`.
    pub fn get_pixel(&self, x: usize, y: usize) -> (r: Pixel)
        requires
            self.wf(),
            y < self.height(),
            x < self.width(),
        ensures
            r == self@[y as int][x as int],
    {
        assert(self@[y as int].len() == self@[0].len());
        self.data[y][x]
    }

    /// The image as text: a header, then one line for each pixel, row by row.
    pub fn to_ppm(&self) -> (out: String)
        requires
            self.wf(),
            self.height() > 0,
        ensures
            out@ == ppm_text(self@),
    {
        let mut out: String = String::new();
        let height = self.data.len();
        let width = self.data[0].len();
        out.append("P3\n");
        push_decimal(&mut out, width as u64);
        out.append(" ");
        push_decimal(&mut out, height as u64);
        out.append("\n255\n");
        assert(out@ =~= ppm_header(width as nat, height as nat));
        let ghost header = out@;
        let mut y: usize = 0;
        while y < height
            invariant
                self.wf(),
                height == self@.len(),
                width == self@[0].len(),
                y <= height,
                out@ == header + ppm_rows(self@.take(y as int)),
            decreases height - y,
        {
            let ghost before = out@;
            let line = &self.data[y];
            assert(line@ == self@[y as int]);
            assert(self@[y as int].len() == self@[0].len());
            let mut x: usize = 0;
            while x < width
                invariant
                    line@.len() == width,
                    x <= width,
                    out@ == before + ppm_row(line@.take(x as int)),
                decreases width - x,
            {
                let pixel = line[x];
                let ghost start = out@;
                push_decimal(&mut out, pixel.0 as u64);
                out.append(" ");
                push_decimal(&mut out, pixel.1 as u64);
                out.append(" ");
                push_decimal(&mut out, pixel.2 as u64);
                out.append("\n");
                proof {
                    assert(out@ =~= start + ppm_pixel(pixel));
                    let taken = line@.take(x + 1);
                    assert(taken.drop_last() =~= line@.take(x as int));
                    assert(taken.last() == pixel);
                }
                x = x + 1;
            }
            proof {
                assert(line@.take(width as int) =~= line@);
                let taken = self@.take(y + 1);
                assert(taken.drop_last() =~= self@.take(y as int));
                assert(taken.last() == line@);
                assert(out@ =~= header + ppm_rows(taken));
            }
            y = y + 1;
        }
        assert(self@.take(height as int) =~= self@);
        out
    }

    /// Sets the pixel in column `x` of row `y`, and no other.
    pub fn set_pixel(&mut self, x: usize, y: usize, value: Pixel)
        requires
            old(self).wf(),
            y < old(self).height(),
            x < old(self).width(),
        ensures
            final(self).wf(),
            final(self)@ == old(self)@.update(y as int, old(self)@[y as int].update(x as int, value)),
    {
        assert(self@[y as int].len() == self@[0].len());
        self.data[y][x] = value;
        assert(rows_of(self.data@) =~= rows_of(old(self).data@).update(
            y as int,
            rows_of(old(self).data@)[y as int].update(x as int, value),
        ));
        assert forall|j: int| 0 <= j < self@.len() implies (#[trigger] self@[j]).len()
            == self@[0].len() by {
            assert(old(self)@[j].len() == old(self)@[0].len());
        }
    }
}

} // verus!
