//! The shared image buffer: a row-major grid of pixels, filled one whole row
//! at a time.
//!
//! Workers sample into private row buffers and merge each finished row here
//! in one step. Rows occupy disjoint index ranges, so the merged image is a
//! function of the per-row contents alone: the order in which rows land, and
//! hence the worker count, cannot change a single pixel. The lemmas at the
//! bottom state exactly that.
use vstd::prelude::*;

verus! {

/// `buf` with the `width` entries of row `y` replaced by `row`.
pub open spec fn row_write<T>(buf: Seq<T>, width: int, y: int, row: Seq<T>) -> Seq<T> {
    Seq::new(
        buf.len(),
        |i: int|
            if y * width <= i < y * width + width {
                row[i - y * width]
            } else {
                buf[i]
            },
    )
}

/// `buf` after writing, in order, row `order[k]` with content
/// `content(order[k])` for every `k`.
pub open spec fn merge_rows<T>(
    buf: Seq<T>,
    width: int,
    order: Seq<int>,
    content: spec_fn(int) -> Seq<T>,
) -> Seq<T>
    decreases order.len(),
{
    if order.len() == 0 {
        buf
    } else {
        row_write(
            merge_rows(buf, width, order.drop_last(), content),
            width,
            order.last(),
            content(order.last()),
        )
    }
}

/// A row's index range lies inside a buffer of `height` rows.
proof fn lemma_row_in_bounds(width: int, height: int, y: int)
    requires
        0 <= y < height,
        0 <= width,
    ensures
        0 <= y * width,
        y * width + width <= height * width,
{
    assert(0 <= y * width && y * width + width <= height * width) by (nonlinear_arith)
        requires
            0 <= y < height,
            0 <= width,
    ;
}

/// Merging never changes the buffer's length.
pub proof fn lemma_merge_len<T>(
    buf: Seq<T>,
    width: int,
    order: Seq<int>,
    content: spec_fn(int) -> Seq<T>,
)
    ensures
        merge_rows(buf, width, order, content).len() == buf.len(),
    decreases order.len(),
{
    if order.len() > 0 {
        lemma_merge_len(buf, width, order.drop_last(), content);
    }
}

/// A pixel of a row that was merged holds that row's content, however many
/// other rows were merged before or after it and in whatever order; a pixel
/// of a row that never was keeps its initial value.
pub proof fn lemma_merge_pixel<T>(
    buf: Seq<T>,
    width: int,
    height: int,
    order: Seq<int>,
    content: spec_fn(int) -> Seq<T>,
    x: int,
    y: int,
)
    requires
        buf.len() == height * width,
        forall|k: int| 0 <= k < order.len() ==> 0 <= #[trigger] order[k] < height,
        forall|r: int| 0 <= r < height ==> (#[trigger] content(r)).len() == width,
        0 <= x < width,
        0 <= y < height,
    ensures
        merge_rows(buf, width, order, content)[y * width + x] == if order.contains(y) {
            content(y)[x]
        } else {
            buf[y * width + x]
        },
    decreases order.len(),
{
    lemma_row_in_bounds(width, height, y);
    if order.len() > 0 {
        let rest = order.drop_last();
        let last = order.last();
        lemma_merge_len(buf, width, rest, content);
        lemma_merge_pixel(buf, width, height, rest, content, x, y);
        if last == y {
            assert(order.contains(y));
        } else {
            assert(!(last * width <= y * width + x < last * width + width)) by (nonlinear_arith)
                requires
                    0 <= x < width,
                    y != last,
            ;
            if order.contains(y) {
                let k = choose|k: int| 0 <= k < order.len() && order[k] == y;
                assert(rest[k] == y);
                assert(rest.contains(y));
            } else {
                assert(!rest.contains(y)) by {
                    if rest.contains(y) {
                        let k = choose|k: int| 0 <= k < rest.len() && rest[k] == y;
                        assert(order[k] == y);
                    }
                }
            }
        }
    }
}

/// The merged image does not depend on the order rows were merged in: any
/// two schedules that cover every row leave identical buffers. Repeating a
/// render with a fixed per-row content therefore reproduces the image bit
/// for bit, whatever the worker pool did to the completion order.
pub proof fn lemma_merge_order_irrelevant<T>(
    buf: Seq<T>,
    width: int,
    height: int,
    order1: Seq<int>,
    order2: Seq<int>,
    content: spec_fn(int) -> Seq<T>,
)
    requires
        0 < width,
        buf.len() == height * width,
        forall|k: int| 0 <= k < order1.len() ==> 0 <= #[trigger] order1[k] < height,
        forall|k: int| 0 <= k < order2.len() ==> 0 <= #[trigger] order2[k] < height,
        forall|r: int| 0 <= r < height ==> (#[trigger] content(r)).len() == width,
        forall|r: int| 0 <= r < height ==> order1.contains(r),
        forall|r: int| 0 <= r < height ==> order2.contains(r),
    ensures
        merge_rows(buf, width, order1, content) == merge_rows(buf, width, order2, content),
{
    let m1 = merge_rows(buf, width, order1, content);
    let m2 = merge_rows(buf, width, order2, content);
    lemma_merge_len(buf, width, order1, content);
    lemma_merge_len(buf, width, order2, content);
    assert forall|i: int| 0 <= i < buf.len() implies m1[i] == m2[i] by {
        let y = i / width;
        let x = i % width;
        vstd::arithmetic::div_mod::lemma_fundamental_div_mod(i, width);
        vstd::arithmetic::div_mod::lemma_mod_bound(i, width);
        assert(0 <= y < height) by (nonlinear_arith)
            requires
                i == y * width + x,
                0 <= x < width,
                0 <= i < height * width,
        ;
        lemma_merge_pixel(buf, width, height, order1, content, x, y);
        lemma_merge_pixel(buf, width, height, order2, content, x, y);
    }
    assert(m1 =~= m2);
}

/// Row-major image buffer of `width * height` pixels, written only through
/// `write_row`, which replaces one whole row and nothing else.
pub struct ImageBuffer<T> {
    width: usize,
    height: usize,
    pixels: Vec<T>,
}

impl<T> View for ImageBuffer<T> {
    type V = Seq<T>;

    closed spec fn view(&self) -> Seq<T> {
        self.pixels@
    }
}

impl<T> ImageBuffer<T> {
    /// Pixel columns per row.
    pub closed spec fn spec_width(&self) -> usize {
        self.width
    }

    /// Number of rows.
    pub closed spec fn spec_height(&self) -> usize {
        self.height
    }

    /// The buffer holds exactly one pixel per grid cell.
    pub closed spec fn wf(&self) -> bool {
        self.pixels@.len() == self.width * self.height
    }

    /// Pixel columns per row.
    pub fn width(&self) -> (w: usize)
        ensures
            w == self.spec_width(),
    {
        self.width
    }

    /// Number of rows.
    pub fn height(&self) -> (h: usize)
        ensures
            h == self.spec_height(),
    {
        self.height
    }

    /// A `width * height` buffer with every pixel set to `fill`.
    pub fn new(width: usize, height: usize, fill: T) -> (img: ImageBuffer<T>) where T: Copy
        requires
            width * height <= usize::MAX,
        ensures
            img.wf(),
            img.spec_width() == width,
            img.spec_height() == height,
            img@.len() == width * height,
            forall|i: int| 0 <= i < img@.len() ==> img@[i] == fill,
    {
        let total: usize = width * height;
        let mut pixels: Vec<T> = Vec::new();
        let mut i: usize = 0;
        while i < total
            invariant
                i <= total,
                pixels@.len() == i,
                forall|j: int| 0 <= j < i ==> pixels@[j] == fill,
            decreases total - i,
        {
            pixels.push(fill);
            i += 1;
        }
        ImageBuffer { width, height, pixels }
    }

    /// The pixel at column `x` of row `y`.
    pub fn pixel(&self, x: usize, y: usize) -> (p: &T)
        requires
            self.wf(),
            x < self.spec_width(),
            y < self.spec_height(),
        ensures
            *p == self@[y * self.spec_width() + x],
    {
        let n: usize = self.pixels.len();
        proof {
            lemma_row_in_bounds(self.width as int, self.height as int, y as int);
        }
        assert(y * self.width + x < n);
        &self.pixels[y * self.width + x]
    }

    /// Replaces row `y` with `row`, touching no other pixel: afterwards the
    /// buffer is exactly `row_write` of its old contents.
    pub fn write_row(&mut self, y: usize, row: &Vec<T>) where T: Copy
        requires
            old(self).wf(),
            y < old(self).spec_height(),
            row@.len() == old(self).spec_width(),
        ensures
            final(self).wf(),
            final(self).spec_width() == old(self).spec_width(),
            final(self).spec_height() == old(self).spec_height(),
            final(self)@ == row_write(
                old(self)@,
                old(self).spec_width() as int,
                y as int,
                row@,
            ),
    {
        let width: usize = self.width;
        let n: usize = self.pixels.len();
        proof {
            lemma_row_in_bounds(width as int, self.height as int, y as int);
        }
        assert(y * width + width <= n);
        let base: usize = y * width;
        let mut x: usize = 0;
        while x < width
            invariant
                x <= width,
                base == y * width,
                base + width <= n,
                n == self.pixels@.len(),
                self.pixels@.len() == old(self).pixels@.len(),
                self.width == old(self).width,
                self.height == old(self).height,
                width == self.width,
                row@.len() == width,
                forall|i: int|
                    0 <= i < self.pixels@.len() ==> self.pixels@[i] == (if base <= i < base + x {
                        row@[i - base]
                    } else {
                        old(self).pixels@[i]
                    }),
            decreases width - x,
        {
            self.pixels.set(base + x, row[x]);
            x += 1;
        }
        proof {
            assert(self.pixels@ =~= row_write(old(self)@, width as int, y as int, row@));
        }
    }

    /// Gives up the buffer as the flat row-major pixel vector.
    pub fn into_pixels(self) -> (v: Vec<T>)
        ensures
            v@ == self@,
    {
        self.pixels
    }
}

} // verus!
