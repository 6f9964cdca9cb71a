//! A pixel canvas and its plain-text image format.
use vstd::prelude::*;
use vstd::string::*;
use crate::color::Color;
use crate::text::{decimal_text, push_decimal};

verus! {

/// A line of pixel data is broken after a row once it holds more than this
/// many characters.
pub const MAX_CHARS_PER_LINE: u64 = 58;

/// The text of one pixel: its three channels, each followed by a space.
pub open spec fn pixel_text(c: Color) -> Seq<char> {
    decimal_text(c.red as int) + seq![' '] + decimal_text(c.green as int) + seq![' ']
        + decimal_text(c.blue as int) + seq![' ']
}

/// The text of the pixels of a row, in order.
pub open spec fn row_text(row: Seq<Color>) -> Seq<char>
    decreases row.len(),
{
    if row.len() == 0 {
        Seq::empty()
    } else {
        row_text(row.drop_last()) + pixel_text(row.last())
    }
}

/// The pixel data of the first `k` rows, and the number of characters
/// counted on the current line after them. A row ends with a line break;
/// where the count has gone past `MAX_CHARS_PER_LINE`, one more line break
/// comes before it and the count starts again from zero.
pub open spec fn body_state(rows: Seq<Seq<Color>>, k: int) -> (Seq<char>, int)
    decreases k,
{
    if k <= 0 {
        (Seq::empty(), 0)
    } else {
        let (before, count) = body_state(rows, k - 1);
        let line = row_text(rows[k - 1]);
        let total = count + line.len();
        if total > MAX_CHARS_PER_LINE {
            (before + line + seq!['\n', '\n'], 0)
        } else {
            (before + line + seq!['\n'], total)
        }
    }
}

/// The header: the format tag, the width and height, and the largest channel
/// value.
pub open spec fn header_text(width: int, height: int) -> Seq<char> {
    seq!['P', '3', '\n'] + decimal_text(width) + seq![' '] + decimal_text(height) + seq![
        '\n',
        '2',
        '5',
        '5',
        '\n',
    ]
}

/// A grid of `height` rows of `width` pixels.
pub struct Canvas {
    pub width: i32,
    pub height: i32,
    pub pixels: Vec<Vec<Color>>,
}

impl Canvas {
    /// The pixels, row by row.
    pub open spec fn rows(&self) -> Seq<Seq<Color>> {
        self.pixels@.map_values(|r: Vec<Color>| r@)
    }

    /// The grid has `height` rows of `width` pixels.
    pub open spec fn wf(&self) -> bool {
        &&& self.width >= 0
        &&& self.height >= 0
        &&& self.rows().len() == self.height
        &&& forall|i: int| 0 <= i < self.height ==> #[trigger] self.rows()[i].len() == self.width
    }

    /// The whole text image of the canvas.
    pub open spec fn text_image(&self) -> Seq<char> {
        header_text(self.width as int, self.height as int) + body_state(
            self.rows(),
            self.height as int,
        ).0
    }

    /// A black canvas of `width` by `height` pixels.
    pub fn new(width: i32, height: i32) -> (r: Canvas)
        requires
            width >= 0,
            height >= 0,
        ensures
            r.wf(),
            r.width == width,
            r.height == height,
            forall|i: int, j: int|
                0 <= i < height && 0 <= j < width ==> #[trigger] r.rows()[i][j] == (Color { red: 0, green: 0, blue: 0 }),
    {
        let mut pixels: Vec<Vec<Color>> = Vec::new();
        for y in 0..height
            invariant
                width >= 0,
                pixels@.len() == y,
                forall|i: int| 0 <= i < y ==> #[trigger] pixels@[i]@.len() == width,
                forall|i: int, j: int|
                    0 <= i < y && 0 <= j < width ==> #[trigger] pixels@[i]@[j] == (Color { red: 0, green: 0, blue: 0 }),
        {
            let mut row: Vec<Color> = Vec::new();
            for x in 0..width
                invariant
                    row@.len() == x,
                    forall|j: int| 0 <= j < x ==> #[trigger] row@[j] == (Color { red: 0, green: 0, blue: 0 }),
            {
                row.push(Color::zero());
            }
            pixels.push(row);
        }
        Canvas { width, height, pixels }
    }

    /// Sets the pixel in column `x` of row `y` to `color`. Coordinates outside
    /// the canvas leave it unchanged.
    pub fn write_pixel(&mut self, x: i32, y: i32, color: Color)
        requires
            old(self).wf(),
        ensures
            final(self).wf(),
            final(self).width == old(self).width,
            final(self).height == old(self).height,
            (0 <= x < old(self).width && 0 <= y < old(self).height) ==> final(self).rows()
                == old(self).rows().update(y as int, old(self).rows()[y as int].update(x as int, color)),
            !(0 <= x < old(self).width && 0 <= y < old(self).height) ==> *final(self) == *old(self),
    {
        if x < 0 || x > self.width - 1 {
            return;
        }
        if y < 0 || y > self.height - 1 {
            return;
        }
        let yi = y as usize;
        let xi = x as usize;
        let ghost old_rows = self.rows();
        assert(self.pixels@[yi as int]@ == old_rows[yi as int]);
        let mut row: Vec<Color> = Vec::new();
        let n = self.pixels[yi].len();
        for j in 0..n
            invariant
                n == old_rows[yi as int].len(),
                yi < old_rows.len(),
                old_rows == self.rows(),
                row@.len() == j,
                forall|t: int| 0 <= t < j ==> #[trigger] row@[t] == old_rows[yi as int][t],
        {
            row.push(self.pixels[yi][j]);
        }
        assert(row@ =~= old_rows[yi as int]);
        row.set(xi, color);
        assert(row@ == old_rows[yi as int].update(xi as int, color));
        let ghost old_pixels = self.pixels@;
        self.pixels.set(yi, row);
        assert(forall|i: int| 0 <= i < old_pixels.len() && i != yi ==> self.pixels@[i] == old_pixels[i]);
        assert(self.rows() =~= old_rows.update(yi as int, old_rows[yi as int].update(xi as int, color)));
    }

    /// The canvas as a plain-text image: the header, then the channels of
    /// every pixel in decimal, row by row.
    pub fn to_pmm(&self) -> (r: String)
        requires
            self.wf(),
        ensures
            r@ == self.text_image(),
    {
        proof {
            reveal_strlit("P3\n");
            reveal_strlit(" ");
            reveal_strlit("\n255\n");
            reveal_strlit("\n");
            assert(" "@ =~= seq![' ']);
            assert("\n"@ =~= seq!['\n']);
        }
        let mut text = String::new();
        text.append("P3\n");
        push_decimal(&mut text, self.width as i64);
        text.append(" ");
        push_decimal(&mut text, self.height as i64);
        text.append("\n255\n");
        let ghost header = text@;
        assert(header =~= header_text(self.width as int, self.height as int));
        let ghost rows = self.rows();
        // The count on the current line, held at most one past the limit:
        // beyond that only whether it is past the limit matters.
        let mut count: u64 = 0;
        let height = self.height as usize;
        for y in 0..height
            invariant
                self.wf(),
                " "@ == seq![' '],
                "\n"@ == seq!['\n'],
                height == self.height,
                rows == self.rows(),
                text@ == header + body_state(rows, y as int).0,
                count == min(body_state(rows, y as int).1, MAX_CHARS_PER_LINE + 1),
                body_state(rows, y as int).1 >= 0,
        {
            let ghost start = text@;
            let ghost before = body_state(rows, y as int);
            let row = &self.pixels[y];
            assert(row@ == rows[y as int]);
            for x in 0..row.len()
                invariant
                    y < rows.len(),
                    " "@ == seq![' '],
                    row@ == rows[y as int],
                    text@ == start + row_text(row@.take(x as int)),
                    count == min(before.1 + row_text(row@.take(x as int)).len(), MAX_CHARS_PER_LINE + 1),
                    before.1 >= 0,
            {
                let ghost prev = text@;
                let pixel = row[x];
                let mut written = push_decimal(&mut text, pixel.red);
                text.append(" ");
                let ghost t1 = text@;
                assert(t1 =~= prev + (decimal_text(pixel.red as int) + seq![' ']));
                written = written + 1 + push_decimal(&mut text, pixel.green);
                text.append(" ");
                let ghost t2 = text@;
                assert(t2 =~= prev + (decimal_text(pixel.red as int) + seq![' '] + decimal_text(
                    pixel.green as int,
                ) + seq![' ']));
                written = written + 1 + push_decimal(&mut text, pixel.blue);
                text.append(" ");
                written = written + 1;
                assert(text@ =~= prev + pixel_text(pixel));
                assert(row@.take(x + 1).drop_last() =~= row@.take(x as int));
                assert(row@.take(x + 1).last() == pixel);
                assert(written == pixel_text(pixel).len());
                count = if count + written > MAX_CHARS_PER_LINE + 1 {
                    MAX_CHARS_PER_LINE + 1
                } else {
                    count + written
                };
            }
            assert(row@.take(row@.len() as int) =~= row@);
            let ghost line = row_text(rows[y as int]);
            assert(text@ == start + line);
            if count > MAX_CHARS_PER_LINE {
                count = 0;
                text.append("\n");
                text.append("\n");
                assert(text@ =~= header + (before.0 + line + seq!['\n', '\n']));
            } else {
                text.append("\n");
                assert(text@ =~= header + (before.0 + line + seq!['\n']));
            }
            assert(text@ =~= header + body_state(rows, y + 1).0);
        }
        text
    }
}

/// The smaller of two integers.
pub open spec fn min(a: int, b: int) -> int {
    if a <= b {
        a
    } else {
        b
    }
}

} // verus!
