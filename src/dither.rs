//! Error-diffusion dithering onto the panel palette.
//!
//! Pixels arrive in raster order. The quantization error of each pixel is
//! pushed to its right neighbour (7/16) and to the three pixels below it
//! (3/16, 5/16, 1/16), dropping targets outside the row. Error is kept for a
//! window of `DITHER_ROWS` rows, one plane per colour channel.
use vstd::prelude::*;

use crate::color::{color_of_code, is_nearest, Color, Rgb};
use crate::WIDTH;

verus! {

/// Columns held per row of the error window: the panel width with margin.
pub const DITHER_COLS: usize = WIDTH + 200;

/// Rows held in the error window.
pub const DITHER_ROWS: usize = 8;

/// Cells in one channel's error plane: `DITHER_ROWS * DITHER_COLS`.
pub const PLANE_LEN: usize = 6400;

/// Divisor that normalizes the kernel weights.
pub const COEF: i16 = 16;

/// Kernel weight for the neighbour to the right.
pub const WEIGHT_RIGHT: i16 = 7;

/// Kernel weight for the neighbour below and to the left.
pub const WEIGHT_BELOW_LEFT: i16 = 3;

/// Kernel weight for the neighbour directly below.
pub const WEIGHT_BELOW: i16 = 5;

/// Kernel weight for the neighbour below and to the right.
pub const WEIGHT_BELOW_RIGHT: i16 = 1;

/// Position of the cell for column `col` of row `row` in a plane.
pub open spec fn cell_index(row: int, col: int) -> int {
    (row % DITHER_ROWS as int) * DITHER_COLS as int + col
}

/// Integer division by `COEF`, rounding toward zero.
pub open spec fn div_coef(a: int) -> int {
    if a >= 0 {
        a / COEF as int
    } else {
        -((-a) / COEF as int)
    }
}

/// The part of residual `res` pushed to a neighbour of kernel weight `weight`.
pub open spec fn share(weight: int, res: int) -> int {
    div_coef(weight * res)
}

/// `e` with `amount` added to the cell of `(row, col)`, when `col` lies in
/// `[0, w)`; otherwise `e`.
pub open spec fn add_at(e: Seq<i16>, row: int, col: int, w: int, amount: int) -> Seq<i16> {
    if 0 <= col < w {
        e.update(cell_index(row, col), (e[cell_index(row, col)] + amount) as i16)
    } else {
        e
    }
}

/// One channel's error plane after visiting pixel `(i, j)` of a row of width
/// `w` with residual `res`: the visited cell is consumed, and the shares of the
/// residual go to the right, below-left, below and below-right neighbours.
pub open spec fn spread(e: Seq<i16>, i: int, j: int, w: int, res: int) -> Seq<i16> {
    let e0 = e.update(cell_index(j, i), 0);
    let e1 = add_at(e0, j, i + 1, w, share(WEIGHT_RIGHT as int, res));
    let e2 = add_at(e1, j + 1, i - 1, w, share(WEIGHT_BELOW_LEFT as int, res));
    let e3 = add_at(e2, j + 1, i, w, share(WEIGHT_BELOW as int, res));
    add_at(e3, j + 1, i + 1, w, share(WEIGHT_BELOW_RIGHT as int, res))
}

/// Red channel of a pixel packed as `0x00RRGGBB`.
pub open spec fn red8(px: u32) -> int {
    ((px >> 16u32) & 0xffu32) as int
}

/// Green channel of a pixel packed as `0x00RRGGBB`.
pub open spec fn green8(px: u32) -> int {
    ((px >> 8u32) & 0xffu32) as int
}

/// Blue channel of a pixel packed as `0x00RRGGBB`.
pub open spec fn blue8(px: u32) -> int {
    (px & 0xffu32) as int
}

/// `v` limited to `[0, 255]`.
pub open spec fn clamp8(v: int) -> u8 {
    if v < 0 {
        0
    } else if v > 255 {
        255
    } else {
        v as u8
    }
}

/// Largest magnitude a cell may hold, given its place relative to the next
/// pixel `(ci, cj)`: visited cells are empty; a cell of the current row has
/// received at most the shares from the row above, plus the right share of its
/// left neighbour; a cell of the next row has the shares of the visited
/// pixels above it.
pub open spec fn cell_bound(s: int, c: int, ci: int, cj: int, w: int) -> int {
    if c >= w {
        0
    } else if s == cj % DITHER_ROWS as int {
        if c < ci {
            0
        } else if c == ci {
            252
        } else {
            141
        }
    } else if s == (cj + 1) % DITHER_ROWS as int {
        (if c - 1 < ci {
            15int
        } else {
            0int
        }) + (if c < ci {
            79int
        } else {
            0int
        }) + (if c + 1 < ci {
            47int
        } else {
            0int
        })
    } else {
        0
    }
}

/// The cell of column `c` in row slot `s` of plane `e`.
pub open spec fn cell(e: Seq<i16>, s: int, c: int) -> i16 {
    e[s * DITHER_COLS as int + c]
}

/// Every cell of plane `e` lies within its bound for next pixel `(ci, cj)`.
pub open spec fn bounded(e: Seq<i16>, ci: int, cj: int, w: int) -> bool {
    &&& e.len() == PLANE_LEN
    &&& forall|s: int, c: int|
        0 <= s < DITHER_ROWS && 0 <= c < DITHER_COLS ==> -cell_bound(s, c, ci, cj, w) <= #[trigger] cell(
            e,
            s,
            c,
        ) <= cell_bound(s, c, ci, cj, w)
}

/// State of the error-diffusion pass over one image.
pub struct Dither {
    red: Vec<i16>,
    green: Vec<i16>,
    blue: Vec<i16>,
    col: usize,
    row: usize,
    width: usize,
}

impl Dither {
    /// Error held for the red channel.
    pub closed spec fn red_errors(&self) -> Seq<i16> {
        self.red@
    }

    /// Error held for the green channel.
    pub closed spec fn green_errors(&self) -> Seq<i16> {
        self.green@
    }

    /// Error held for the blue channel.
    pub closed spec fn blue_errors(&self) -> Seq<i16> {
        self.blue@
    }

    /// Column of the next pixel expected.
    pub closed spec fn next_col(&self) -> int {
        self.col as int
    }

    /// Row of the next pixel expected.
    pub closed spec fn next_row(&self) -> int {
        self.row as int
    }

    /// Row width of the image, fixed by the first pixel; zero before it.
    pub closed spec fn width(&self) -> int {
        self.width as int
    }

    pub closed spec fn wf(&self) -> bool {
        &&& self.row <= isize::MAX
        &&& self.width <= DITHER_COLS
        &&& self.width == 0 ==> {
            &&& self.col == 0
            &&& self.row == 0
            &&& self.red@ == Seq::new(PLANE_LEN as nat, |n: int| 0i16)
            &&& self.green@ == Seq::new(PLANE_LEN as nat, |n: int| 0i16)
            &&& self.blue@ == Seq::new(PLANE_LEN as nat, |n: int| 0i16)
        }
        &&& self.width > 0 ==> {
            &&& self.col < self.width
            &&& bounded(self.red@, self.col as int, self.row as int, self.width as int)
            &&& bounded(self.green@, self.col as int, self.row as int, self.width as int)
            &&& bounded(self.blue@, self.col as int, self.row as int, self.width as int)
        }
    }

    /// The input colour of pixel `px` with the error held for the next
    /// pixel added, each channel clamped to `[0, 255]`.
    pub open spec fn adjusted(&self, px: u32) -> Rgb {
        let n = cell_index(self.next_row(), self.next_col());
        Rgb {
            r: clamp8(red8(px) + self.red_errors()[n]),
            g: clamp8(green8(px) + self.green_errors()[n]),
            b: clamp8(blue8(px) + self.blue_errors()[n]),
        }
    }

    /// A fresh pass: no error held, expecting pixel `(0, 0)`.
    pub fn new() -> (d: Dither)
        ensures
            d.wf(),
            d.next_col() == 0,
            d.next_row() == 0,
            d.width() == 0,
            d.red_errors() == Seq::new(PLANE_LEN as nat, |n: int| 0i16),
            d.green_errors() == Seq::new(PLANE_LEN as nat, |n: int| 0i16),
            d.blue_errors() == Seq::new(PLANE_LEN as nat, |n: int| 0i16),
    {
        Dither { red: zero_plane(), green: zero_plane(), blue: zero_plane(), col: 0, row: 0, width: 0 }
    }
}

impl Dither {
    /// Quantizes pixel `px` (packed as `0x00RRGGBB`) at column `i` of row `j`
    /// of an image `w` pixels wide, and returns the palette code chosen.
    ///
    /// The error held for the pixel is added to its channels, which are
    /// clamped to `[0, 255]`; the nearest palette entry is chosen; its
    /// difference from the adjusted colour is then spread to the pixel's
    /// neighbours. Pixels must come in raster order, all with the same `w`.
    pub fn dither_get_pixel(&mut self, px: u32, i: isize, j: isize, w: isize) -> (r: usize)
        requires
            old(self).wf(),
            0 < w <= DITHER_COLS,
            old(self).width() != 0 ==> w == old(self).width(),
            i == old(self).next_col(),
            j == old(self).next_row(),
            j < isize::MAX,
        ensures
            final(self).wf(),
            r < 7,
            is_nearest(old(self).adjusted(px), color_of_code(r as int)),
            final(self).width() == w,
            final(self).red_errors() == spread(
                old(self).red_errors(),
                i as int,
                j as int,
                w as int,
                old(self).adjusted(px).r - color_of_code(r as int).rgb().r,
            ),
            final(self).green_errors() == spread(
                old(self).green_errors(),
                i as int,
                j as int,
                w as int,
                old(self).adjusted(px).g - color_of_code(r as int).rgb().g,
            ),
            final(self).blue_errors() == spread(
                old(self).blue_errors(),
                i as int,
                j as int,
                w as int,
                old(self).adjusted(px).b - color_of_code(r as int).rgb().b,
            ),
            i + 1 < w ==> final(self).next_col() == i + 1 && final(self).next_row() == j,
            i + 1 == w ==> final(self).next_col() == 0 && final(self).next_row() == j + 1,
    {
        let ui = i as usize;
        let uj = j as usize;
        let uw = w as usize;
        if self.width == 0 {
            self.width = uw;
            proof {
                lemma_zero_bounded(self.red@, w as int);
                lemma_zero_bounded(self.green@, w as int);
                lemma_zero_bounded(self.blue@, w as int);
            }
        }
        let slot = uj % DITHER_ROWS;
        proof {
            lemma_cell_index(j as int, 0, 0, i as int);
            assert(-252 <= cell(self.red@, slot as int, i as int) <= 252);
            assert(-252 <= cell(self.green@, slot as int, i as int) <= 252);
            assert(-252 <= cell(self.blue@, slot as int, i as int) <= 252);
        }
        let n = slot * DITHER_COLS + ui;
        let (pr, pg, pb) = split_channels(px);
        let r = clamp_channel(pr + self.red[n]);
        let g = clamp_channel(pg + self.green[n]);
        let b = clamp_channel(pb + self.blue[n]);

        let closest = Color::nearest(Rgb::new(r as u8, g as u8, b as u8));
        let pal = closest.to_rgb();
        let code = closest.to_code();

        spread_plane(&mut self.red, ui, uj, uw, r - pal.r as i16);
        spread_plane(&mut self.green, ui, uj, uw, g - pal.g as i16);
        spread_plane(&mut self.blue, ui, uj, uw, b - pal.b as i16);

        if ui + 1 < uw {
            self.col = ui + 1;
        } else {
            proof {
                lemma_row_end(self.red@, j as int, w as int);
                lemma_row_end(self.green@, j as int, w as int);
                lemma_row_end(self.blue@, j as int, w as int);
            }
            self.col = 0;
            self.row = uj + 1;
        }
        code as usize
    }
}

impl Dither {
    /// The red, green and blue error held for the next pixel.
    pub fn pending_error(&self) -> (r: (i16, i16, i16))
        requires
            self.wf(),
        ensures
            r.0 == self.red_errors()[cell_index(self.next_row(), self.next_col())],
            r.1 == self.green_errors()[cell_index(self.next_row(), self.next_col())],
            r.2 == self.blue_errors()[cell_index(self.next_row(), self.next_col())],
    {
        proof {
            lemma_cell_index(self.row as int, 0, 0, self.col as int);
        }
        let n = (self.row % DITHER_ROWS) * DITHER_COLS + self.col;
        (self.red[n], self.green[n], self.blue[n])
    }
}

/// The red, green and blue channels of a pixel packed as `0x00RRGGBB`.
fn split_channels(px: u32) -> (r: (i16, i16, i16))
    ensures
        r.0 == red8(px),
        r.1 == green8(px),
        r.2 == blue8(px),
        0 <= r.0 <= 255,
        0 <= r.1 <= 255,
        0 <= r.2 <= 255,
{
    assert((px >> 16u32) & 0xffu32 <= 255) by (bit_vector);
    assert((px >> 8u32) & 0xffu32 <= 255) by (bit_vector);
    assert(px & 0xffu32 <= 255) by (bit_vector);
    (((px >> 16u32) & 0xff) as i16, ((px >> 8u32) & 0xff) as i16, (px & 0xff) as i16)
}

/// `v` limited to `[0, 255]`.
fn clamp_channel(v: i16) -> (r: i16)
    ensures
        r == clamp8(v as int),
{
    if v < 0 {
        0
    } else if v > 255 {
        255
    } else {
        v
    }
}

fn zero_plane() -> (p: Vec<i16>)
    ensures
        p@ == Seq::new(PLANE_LEN as nat, |n: int| 0i16),
{
    let mut p: Vec<i16> = Vec::with_capacity(PLANE_LEN);
    let mut n: usize = 0;
    while n < PLANE_LEN
        invariant
            n <= PLANE_LEN,
            p@.len() == n,
            forall|k: int| 0 <= k < n ==> p@[k] == 0i16,
        decreases PLANE_LEN - n,
    {
        p.push(0);
        n = n + 1;
    }
    assert(p@ =~= Seq::new(PLANE_LEN as nat, |n: int| 0i16));
    p
}


proof fn lemma_cell_index(row: int, s: int, c: int, col: int)
    requires
        row >= 0,
        0 <= s < DITHER_ROWS,
        0 <= c < DITHER_COLS,
        0 <= col < DITHER_COLS,
    ensures
        0 <= cell_index(row, col) < PLANE_LEN,
        s * DITHER_COLS as int + c == cell_index(row, col) <==> (s == row % DITHER_ROWS as int
            && c == col),
{
    let t = row % 8;
    assert(0 <= t < 8);
    assert(s * 800 + c == t * 800 + col ==> s == t) by (nonlinear_arith)
        requires
            0 <= s < 8,
            0 <= t < 8,
            0 <= c < 800,
            0 <= col < 800,
    ;
}

proof fn lemma_add_at(e: Seq<i16>, row: int, col: int, w: int, a: int, s: int, c: int)
    requires
        e.len() == PLANE_LEN,
        row >= 0,
        0 <= s < DITHER_ROWS,
        0 <= c < DITHER_COLS,
        w <= DITHER_COLS,
        0 <= col < w ==> -0x8000 <= e[cell_index(row, col)] + a <= 0x7fff,
    ensures
        add_at(e, row, col, w, a).len() == PLANE_LEN,
        cell(add_at(e, row, col, w, a), s, c) == cell(e, s, c) + (if 0 <= col < w && s == row
            % DITHER_ROWS as int && c == col {
            a
        } else {
            0
        }),
{
    if 0 <= col < w {
        lemma_cell_index(row, s, c, col);
    }
}

proof fn lemma_zero_at(e: Seq<i16>, row: int, col: int, s: int, c: int)
    requires
        e.len() == PLANE_LEN,
        row >= 0,
        0 <= s < DITHER_ROWS,
        0 <= c < DITHER_COLS,
        0 <= col < DITHER_COLS,
    ensures
        e.update(cell_index(row, col), 0).len() == PLANE_LEN,
        cell(e.update(cell_index(row, col), 0), s, c) == if s == row % DITHER_ROWS as int && c
            == col {
            0
        } else {
            cell(e, s, c)
        },
{
    lemma_cell_index(row, s, c, col);
}

proof fn lemma_share_bounds(res: int)
    requires
        -255 <= res <= 255,
    ensures
        -111 <= share(WEIGHT_RIGHT as int, res) <= 111,
        -47 <= share(WEIGHT_BELOW_LEFT as int, res) <= 47,
        -79 <= share(WEIGHT_BELOW as int, res) <= 79,
        -15 <= share(WEIGHT_BELOW_RIGHT as int, res) <= 15,
{
}

proof fn lemma_zero_bounded(e: Seq<i16>, w: int)
    requires
        e == Seq::new(PLANE_LEN as nat, |n: int| 0i16),
    ensures
        bounded(e, 0, 0, w),
{
    assert forall|s: int, c: int| 0 <= s < DITHER_ROWS && 0 <= c < DITHER_COLS implies -cell_bound(
        s,
        c,
        0,
        0,
        w,
    ) <= #[trigger] cell(e, s, c) <= cell_bound(s, c, 0, 0, w) by {
        assert(0 <= s * 800 + c < 6400) by (nonlinear_arith)
            requires
                0 <= s < 8,
                0 <= c < 800,
        ;
    }
}

/// When a row is finished, its cells are all consumed and the next row
/// becomes the current one.
proof fn lemma_row_end(e: Seq<i16>, cj: int, w: int)
    requires
        cj >= 0,
        bounded(e, w, cj, w),
    ensures
        bounded(e, 0, cj + 1, w),
{
    assert forall|s: int, c: int| 0 <= s < DITHER_ROWS && 0 <= c < DITHER_COLS implies -cell_bound(
        s,
        c,
        0,
        cj + 1,
        w,
    ) <= #[trigger] cell(e, s, c) <= cell_bound(s, c, 0, cj + 1, w) by {
        assert(-cell_bound(s, c, w, cj, w) <= cell(e, s, c) <= cell_bound(s, c, w, cj, w));
    }
}

/// Integer division of `a` by `COEF`, rounding toward zero.
fn div_coef_exec(a: i16) -> (r: i16)
    requires
        -0x7fff <= a,
    ensures
        r == div_coef(a as int),
{
    if a >= 0 {
        a / COEF
    } else {
        -((-a) / COEF)
    }
}

/// Consumes the cell of pixel `(i, j)` and pushes the shares of `res` to its
/// neighbours.
#[verifier::rlimit(30)]
fn spread_plane(plane: &mut Vec<i16>, i: usize, j: usize, w: usize, res: i16)
    requires
        bounded(old(plane)@, i as int, j as int, w as int),
        i < w <= DITHER_COLS,
        -255 <= res <= 255,
    ensures
        final(plane)@ == spread(old(plane)@, i as int, j as int, w as int, res as int),
        bounded(final(plane)@, i + 1, j as int, w as int),
{
    let ghost e = plane@;
    let ghost ii = i as int;
    let ghost jj = j as int;
    let ghost ww = w as int;
    proof {
        lemma_share_bounds(res as int);
    }
    let slot = j % DITHER_ROWS;
    let next = (slot + 1) % DITHER_ROWS;
    assert(next as int == (jj + 1) % 8);
    let t7 = div_coef_exec(WEIGHT_RIGHT * res);
    let t3 = div_coef_exec(WEIGHT_BELOW_LEFT * res);
    let t5 = div_coef_exec(WEIGHT_BELOW * res);
    let t1 = div_coef_exec(WEIGHT_BELOW_RIGHT * res);

    let ghost e0 = e.update(cell_index(jj, ii), 0);
    proof {
        lemma_cell_index(jj, 0, 0, ii);
    }
    plane.set(slot * DITHER_COLS + i, 0);
    assert(plane@ == e0);

    let ghost e1 = add_at(e0, jj, ii + 1, ww, t7 as int);
    if i + 1 < w {
        proof {
            lemma_cell_index(jj, 0, 0, ii + 1);
            lemma_zero_at(e, jj, ii, slot as int, ii + 1);
            assert(-141 <= cell(e, slot as int, ii + 1) <= 141);
        }
        let n = slot * DITHER_COLS + i + 1;
        let v = plane[n];
        plane.set(n, v + t7);
    }
    assert(plane@ == e1);

    let ghost e2 = add_at(e1, jj + 1, ii - 1, ww, t3 as int);
    if i >= 1 {
        proof {
            lemma_cell_index(jj + 1, 0, 0, ii - 1);
            lemma_zero_at(e, jj, ii, next as int, ii - 1);
            lemma_add_at(e0, jj, ii + 1, ww, t7 as int, next as int, ii - 1);
            assert(-141 <= cell(e, next as int, ii - 1) <= 141);
        }
        let n = next * DITHER_COLS + i - 1;
        let v = plane[n];
        plane.set(n, v + t3);
    }
    assert(plane@ == e2);

    let ghost e3 = add_at(e2, jj + 1, ii, ww, t5 as int);
    proof {
        lemma_cell_index(jj + 1, 0, 0, ii);
        lemma_zero_at(e, jj, ii, next as int, ii);
        lemma_add_at(e0, jj, ii + 1, ww, t7 as int, next as int, ii);
        lemma_add_at(e1, jj + 1, ii - 1, ww, t3 as int, next as int, ii);
        assert(-141 <= cell(e, next as int, ii) <= 141);
    }
    let n = next * DITHER_COLS + i;
    let v = plane[n];
    plane.set(n, v + t5);
    assert(plane@ == e3);

    let ghost e4 = add_at(e3, jj + 1, ii + 1, ww, t1 as int);
    if i + 1 < w {
        proof {
            lemma_cell_index(jj + 1, 0, 0, ii + 1);
            lemma_zero_at(e, jj, ii, next as int, ii + 1);
            lemma_add_at(e0, jj, ii + 1, ww, t7 as int, next as int, ii + 1);
            lemma_add_at(e1, jj + 1, ii - 1, ww, t3 as int, next as int, ii + 1);
            lemma_add_at(e2, jj + 1, ii, ww, t5 as int, next as int, ii + 1);
            assert(-141 <= cell(e, next as int, ii + 1) <= 141);
        }
        let n = next * DITHER_COLS + i + 1;
        let v = plane[n];
        plane.set(n, v + t1);
    }
    assert(plane@ == e4);

    proof {
        assert forall|s: int, c: int| 0 <= s < DITHER_ROWS && 0 <= c < DITHER_COLS implies -cell_bound(
            s,
            c,
            ii + 1,
            jj,
            ww,
        ) <= #[trigger] cell(e4, s, c) <= cell_bound(s, c, ii + 1, jj, ww) by {
            assert(-cell_bound(s, c, ii, jj, ww) <= cell(e, s, c) <= cell_bound(s, c, ii, jj, ww));
            lemma_zero_at(e, jj, ii, s, c);
            lemma_add_at(e0, jj, ii + 1, ww, t7 as int, s, c);
            lemma_add_at(e1, jj + 1, ii - 1, ww, t3 as int, s, c);
            lemma_add_at(e2, jj + 1, ii, ww, t5 as int, s, c);
            lemma_add_at(e3, jj + 1, ii + 1, ww, t1 as int, s, c);
        }
    }
}


/// Sum of the error held in a plane.
pub open spec fn total(e: Seq<i16>) -> int
    decreases e.len(),
{
    if e.len() == 0 {
        0
    } else {
        total(e.drop_last()) + e.last()
    }
}

/// Error pushed to neighbours by a pixel in column `i` of a row of width `w`
/// whose residual is `res`; shares aimed outside the row are dropped.
pub open spec fn diffused(i: int, w: int, res: int) -> int {
    (if i + 1 < w {
        share(WEIGHT_RIGHT as int, res)
    } else {
        0
    }) + (if i >= 1 {
        share(WEIGHT_BELOW_LEFT as int, res)
    } else {
        0
    }) + share(WEIGHT_BELOW as int, res) + (if i + 1 < w {
        share(WEIGHT_BELOW_RIGHT as int, res)
    } else {
        0
    })
}

proof fn lemma_total_update(e: Seq<i16>, k: int, v: i16)
    requires
        0 <= k < e.len(),
    ensures
        total(e.update(k, v)) == total(e) - e[k] + v,
    decreases e.len(),
{
    let u = e.update(k, v);
    if k == e.len() - 1 {
        assert(u.drop_last() =~= e.drop_last());
    } else {
        lemma_total_update(e.drop_last(), k, v);
        assert(u.drop_last() =~= e.drop_last().update(k, v));
    }
}

proof fn lemma_total_add_at(e: Seq<i16>, row: int, col: int, w: int, a: int)
    requires
        e.len() == PLANE_LEN,
        row >= 0,
        w <= DITHER_COLS,
        0 <= col < w ==> -0x8000 <= e[cell_index(row, col)] + a <= 0x7fff,
    ensures
        total(add_at(e, row, col, w, a)) == total(e) + if 0 <= col < w {
            a
        } else {
            0
        },
{
    if 0 <= col < w {
        lemma_cell_index(row, 0, 0, col);
        lemma_total_update(e, cell_index(row, col), (e[cell_index(row, col)] + a) as i16);
    }
}

/// Error is conserved by each visit: the error held in a channel afterwards
/// is the error held before, less the error consumed at the visited pixel,
/// plus exactly the shares of the residual that were diffused.
#[verifier::rlimit(30)]
pub proof fn lemma_spread_conserves(e: Seq<i16>, i: int, j: int, w: int, res: int)
    requires
        bounded(e, i, j, w),
        0 <= i < w <= DITHER_COLS,
        j >= 0,
        -255 <= res <= 255,
    ensures
        total(spread(e, i, j, w, res)) == total(e) - e[cell_index(j, i)] + diffused(i, w, res),
{
    lemma_share_bounds(res);
    lemma_cell_index(j, 0, 0, i);
    let s0 = j % DITHER_ROWS as int;
    let s1 = (j + 1) % DITHER_ROWS as int;
    let e0 = e.update(cell_index(j, i), 0);
    let e1 = add_at(e0, j, i + 1, w, share(WEIGHT_RIGHT as int, res));
    let e2 = add_at(e1, j + 1, i - 1, w, share(WEIGHT_BELOW_LEFT as int, res));
    let e3 = add_at(e2, j + 1, i, w, share(WEIGHT_BELOW as int, res));
    lemma_total_update(e, cell_index(j, i), 0);
    if i + 1 < w {
        lemma_cell_index(j, 0, 0, i + 1);
        lemma_zero_at(e, j, i, s0, i + 1);
        assert(-141 <= cell(e, s0, i + 1) <= 141);
    }
    lemma_total_add_at(e0, j, i + 1, w, share(WEIGHT_RIGHT as int, res));
    if i >= 1 {
        lemma_cell_index(j + 1, 0, 0, i - 1);
        lemma_zero_at(e, j, i, s1, i - 1);
        lemma_add_at(e0, j, i + 1, w, share(WEIGHT_RIGHT as int, res), s1, i - 1);
        assert(-141 <= cell(e, s1, i - 1) <= 141);
    }
    lemma_total_add_at(e1, j + 1, i - 1, w, share(WEIGHT_BELOW_LEFT as int, res));
    lemma_cell_index(j + 1, 0, 0, i);
    lemma_zero_at(e, j, i, s1, i);
    lemma_add_at(e0, j, i + 1, w, share(WEIGHT_RIGHT as int, res), s1, i);
    lemma_add_at(e1, j + 1, i - 1, w, share(WEIGHT_BELOW_LEFT as int, res), s1, i);
    assert(-141 <= cell(e, s1, i) <= 141);
    lemma_total_add_at(e2, j + 1, i, w, share(WEIGHT_BELOW as int, res));
    if i + 1 < w {
        lemma_cell_index(j + 1, 0, 0, i + 1);
        lemma_zero_at(e, j, i, s1, i + 1);
        lemma_add_at(e0, j, i + 1, w, share(WEIGHT_RIGHT as int, res), s1, i + 1);
        lemma_add_at(e1, j + 1, i - 1, w, share(WEIGHT_BELOW_LEFT as int, res), s1, i + 1);
        lemma_add_at(e2, j + 1, i, w, share(WEIGHT_BELOW as int, res), s1, i + 1);
        assert(-141 <= cell(e, s1, i + 1) <= 141);
    }
    lemma_total_add_at(e3, j + 1, i + 1, w, share(WEIGHT_BELOW_RIGHT as int, res));
}

/// For a pixel away from both ends of its row, the error diffused equals
/// the residual when the residual is a multiple of `COEF`, and otherwise
/// falls short of it, toward zero, by at most three.
pub proof fn lemma_interior_diffusion(i: int, w: int, res: int)
    requires
        0 < i,
        i + 1 < w,
    ensures
        res % COEF as int == 0 ==> diffused(i, w, res) == res,
        res >= 0 ==> res - 3 <= diffused(i, w, res) <= res,
        res <= 0 ==> res <= diffused(i, w, res) <= res + 3,
{
    assert(diffused(i, w, res) == div_coef(7 * res) + div_coef(3 * res) + div_coef(5 * res)
        + div_coef(res));
    if res >= 0 {
        lemma_div_coef_nonneg(7 * res);
        lemma_div_coef_nonneg(3 * res);
        lemma_div_coef_nonneg(5 * res);
        lemma_div_coef_nonneg(res);
    } else {
        lemma_div_coef_nonneg(-7 * res);
        lemma_div_coef_nonneg(-3 * res);
        lemma_div_coef_nonneg(-5 * res);
        lemma_div_coef_nonneg(-res);
        assert(div_coef(7 * res) == -div_coef(-7 * res));
        assert(div_coef(3 * res) == -div_coef(-3 * res));
        assert(div_coef(5 * res) == -div_coef(-5 * res));
        assert(div_coef(res) == -div_coef(-res));
    }
    if res % 16 == 0 {
        let q = res / 16;
        assert(res == 16 * q);
        lemma_div_exact(7, q);
        lemma_div_exact(3, q);
        lemma_div_exact(5, q);
        lemma_div_exact(1, q);
    }
}

proof fn lemma_div_coef_nonneg(a: int)
    requires
        a >= 0,
    ensures
        div_coef(a) == a / 16,
        16 * div_coef(a) <= a < 16 * div_coef(a) + 16,
{
}

proof fn lemma_div_exact(k: int, q: int)
    requires
        0 < k < 16,
    ensures
        div_coef(k * (16 * q)) == k * q,
{
    assert(k * (16 * q) == 16 * (k * q)) by (nonlinear_arith);
    if q >= 0 {
        assert(k * q >= 0) by (nonlinear_arith)
            requires
                k > 0,
                q >= 0,
        ;
        assert((16 * (k * q)) / 16 == k * q);
    } else {
        assert(k * q < 0) by (nonlinear_arith)
            requires
                k > 0,
                q < 0,
        ;
        assert((-(16 * (k * q))) / 16 == -(k * q));
    }
}

} // verus!
