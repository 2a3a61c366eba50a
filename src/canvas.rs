//! A grid of pixels and its plain-text pixel-map serialization.
use vstd::prelude::*;
use vstd::string::*;
use crate::colour::{colour, rgb_text, Colour};
use crate::decimal::{dec_nat, push_nat};

verus! {

/// A `width` by `height` grid of colours, addressed as `data[x][y]`.
pub struct Canvas {
    pub height: usize,
    pub width: usize,
    pub data: Vec<Vec<Colour>>,
}

/// The pixel lines of a `w` by `h` image, row by row from the top, left
/// to right.
pub open spec fn pixel_lines(w: int, h: int, px: spec_fn(int, int) -> Colour) -> Seq<Seq<char>> {
    Seq::new((w * h) as nat, |k: int| rgb_text(px(k % w, k / w)))
}

/// `P3`, the dimensions, then the maximum value line `256`. The plain-text
/// pixel-map format conventionally states `255` there; `256` is kept so that
/// files match the ones this renderer has always written.
pub open spec fn header_text(w: nat, h: nat) -> Seq<char> {
    seq!['P', '3', '\n'] + dec_nat(w) + seq![' '] + dec_nat(h) + seq!['\n', '2', '5', '6', '\n']
}

/// Lines joined, each one followed by a newline.
pub open spec fn join_lines(ls: Seq<Seq<char>>) -> Seq<char>
    decreases ls.len(),
{
    if ls.len() == 0 {
        seq![]
    } else {
        join_lines(ls.drop_last()) + ls.last() + seq!['\n']
    }
}

impl Canvas {
    /// One column per `x`, each holding `height` pixels.
    pub open spec fn wf(&self) -> bool {
        &&& self.data@.len() == self.width
        &&& forall|x: int| 0 <= x < self.width ==> #[trigger] self.data@[x]@.len() == self.height
    }

    pub open spec fn pixel(&self, x: int, y: int) -> Colour {
        self.data@[x]@[y]
    }

    /// The pixel lines of the map, row by row from the top, left to right.
    pub open spec fn lines(&self) -> Seq<Seq<char>> {
        pixel_lines(self.width as int, self.height as int, |x: int, y: int| self.pixel(x, y))
    }

    /// The body of the pixel map: one line per pixel.
    pub open spec fn body(&self) -> Seq<char> {
        join_lines(self.lines())
    }

    /// The header for this canvas's size (see `header_text`).
    pub open spec fn header(&self) -> Seq<char> {
        header_text(self.width as nat, self.height as nat)
    }

    /// A black canvas of the given size.
    pub fn new(width: usize, height: usize) -> (c: Canvas)
        ensures
            c.wf(),
            c.width == width,
            c.height == height,
            forall|x: int, y: int|
                0 <= x < width && 0 <= y < height ==> c.pixel(x, y) == colour(0, 0, 0),
    {
        let mut data: Vec<Vec<Colour>> = Vec::new();
        let mut i: usize = 0;
        while i < width
            invariant
                i <= width,
                data@.len() == i,
                forall|x: int| 0 <= x < i ==> #[trigger] data@[x]@.len() == height,
                forall|x: int, y: int|
                    0 <= x < i && 0 <= y < height ==> data@[x]@[y] == colour(0, 0, 0),
            decreases width - i,
        {
            let mut col: Vec<Colour> = Vec::new();
            let mut j: usize = 0;
            while j < height
                invariant
                    j <= height,
                    col@.len() == j,
                    forall|y: int| 0 <= y < j ==> col@[y] == colour(0, 0, 0),
                decreases height - j,
            {
                col.push(Colour::new(0, 0, 0));
                j = j + 1;
            }
            data.push(col);
            i = i + 1;
        }
        Canvas { height, width, data }
    }

    /// Sets the pixel at column `x`, row `y` to `c`.
    pub fn write(&mut self, x: usize, y: usize, c: Colour)
        requires
            old(self).wf(),
            x < old(self).width,
            y < old(self).height,
        ensures
            final(self).wf(),
            final(self).width == old(self).width,
            final(self).height == old(self).height,
            forall|i: int, j: int|
                0 <= i < final(self).width && 0 <= j < final(self).height ==> final(self).pixel(i, j)
                    == if i == x && j == y {
                    c
                } else {
                    old(self).pixel(i, j)
                },
    {
        let mut col: Vec<Colour> = Vec::new();
        std::mem::swap(&mut col, &mut self.data[x]);
        col.set(y, c);
        std::mem::swap(&mut col, &mut self.data[x]);
        assert forall|i: int| 0 <= i < self.width implies #[trigger] self.data@[i]@.len()
            == self.height by {
            if i != x {
                assert(self.data@[i] == old(self).data@[i]);
            }
        }
        assert forall|i: int, j: int|
            0 <= i < self.width && 0 <= j < self.height implies self.pixel(i, j) == if i == x && j
                == y {
                c
            } else {
                old(self).pixel(i, j)
            } by {
            if i != x {
                assert(self.data@[i] == old(self).data@[i]);
            }
        }
    }

    /// The pixel-map header.
    pub fn ppm_header(&self) -> (s: String)
        ensures
            s@ == self.header(),
    {
        proof {
            reveal_strlit("P3\n");
            reveal_strlit(" ");
            reveal_strlit("\n256\n");
        }
        let mut s = String::new();
        s.append("P3\n");
        push_nat(&mut s, self.width as u64);
        s.append(" ");
        push_nat(&mut s, self.height as u64);
        s.append("\n256\n");
        assert(s@ =~= self.header());
        s
    }

    /// The whole pixel map: header, then body.
    pub fn ppm_text(&self) -> (s: String)
        requires
            self.wf(),
        ensures
            s@ == self.header() + self.body(),
    {
        let mut s = self.ppm_header();
        let body = self.ppm_data();
        s.append(body.as_str());
        s
    }

    /// The pixel-map body.
    pub fn ppm_data(&self) -> (s: String)
        requires
            self.wf(),
        ensures
            s@ == self.body(),
    {
        let mut s = String::new();
        let w = self.width;
        let h = self.height;
        let mut y: usize = 0;
        while y < h
            invariant
                self.wf(),
                w == self.width,
                h == self.height,
                y <= h,
                s@ == join_lines(self.lines().take(y * w)),
            decreases h - y,
        {
            let mut x: usize = 0;
            while x < w
                invariant
                    self.wf(),
                    w == self.width,
                    h == self.height,
                    y < h,
                    x <= w,
                    s@ == join_lines(self.lines().take(y * w + x)),
                decreases w - x,
            {
                let ghost k: int = y * w + x;
                proof {
                    lemma_index_split(x as int, y as int, w as int, h as int);
                }
                let line = self.data[x][y].rgb_string();
                let ghost s0 = s@;
                proof {
                    reveal_strlit("\n");
                }
                s.append(line.as_str());
                assert(s@ == s0 + line@);
                s.append("\n");
                assert(s@ =~= s0 + line@ + seq!['\n']);
                proof {
                    let ls = self.lines();
                    assert(ls.take(k + 1).drop_last() =~= ls.take(k));
                    assert(ls.take(k + 1).last() == ls[k]);
                    assert(ls[k] == rgb_text(self.pixel(x as int, y as int)));
                    assert(join_lines(ls.take(k + 1)) == join_lines(ls.take(k)) + ls[k] + seq!['\n']);
                    assert(s@ =~= join_lines(ls.take(k + 1)));
                }
                x = x + 1;
            }
            proof {
                assert(y * w + w == (y + 1) * w) by (nonlinear_arith);
            }
            y = y + 1;
        }
        proof {
            assert(self.lines().take(h * w) =~= self.lines()) by {
                assert(h * w == w * h) by (nonlinear_arith);
            }
        }
        s
    }
}

/// Row-major position `y * w + x` names column `x` and row `y`.
pub proof fn lemma_index_split(x: int, y: int, w: int, h: int)
    requires
        0 <= x < w,
        0 <= y < h,
    ensures
        0 <= y * w + x < w * h,
        (y * w + x) % w == x,
        (y * w + x) / w == y,
{
    assert(0 <= y * w + x < w * h) by (nonlinear_arith)
        requires
            0 <= x < w,
            0 <= y < h,
    ;
    vstd::arithmetic::div_mod::lemma_fundamental_div_mod_converse(y * w + x, w, y, x);
}

/// Writing one pixel changes exactly one line of the serialized body: the
/// line at row-major position `y * width + x`, which becomes the new colour.
pub proof fn lemma_write_changes_one_line(before: Canvas, after: Canvas, x: int, y: int, c: Colour)
    requires
        before.wf(),
        after.wf(),
        after.width == before.width,
        after.height == before.height,
        0 <= x < before.width,
        0 <= y < before.height,
        forall|i: int, j: int|
            0 <= i < after.width && 0 <= j < after.height ==> after.pixel(i, j) == if i == x && j
                == y {
                c
            } else {
                before.pixel(i, j)
            },
    ensures
        after.lines().len() == before.lines().len(),
        after.lines()[y * before.width + x] == rgb_text(c),
        forall|k: int|
            0 <= k < before.lines().len() && k != y * before.width + x ==> after.lines()[k]
                == before.lines()[k],
{
    let w = before.width as int;
    let h = before.height as int;
    lemma_index_split(x, y, w, h);
    assert forall|k: int|
        0 <= k < before.lines().len() && k != y * w + x implies after.lines()[k]
            == before.lines()[k] by {
        lemma_position_split(k, w, h);
        let (i, j) = (k % w, k / w);
        lemma_index_split(i, j, w, h);
        vstd::arithmetic::div_mod::lemma_fundamental_div_mod(k, w);
        assert(k == j * w + i) by (nonlinear_arith)
            requires
                k == w * (k / w) + k % w,
                i == k % w,
                j == k / w,
        ;
    }
}

/// A black canvas serializes to all-zero lines, one per pixel.
pub proof fn lemma_fresh_canvas_lines(c: Canvas)
    requires
        c.wf(),
        forall|x: int, y: int|
            0 <= x < c.width && 0 <= y < c.height ==> c.pixel(x, y) == colour(0, 0, 0),
    ensures
        c.lines().len() == c.width * c.height,
        forall|k: int| 0 <= k < c.lines().len() ==> c.lines()[k] == seq!['0', ' ', '0', ' ', '0'],
{
    let w = c.width as int;
    let h = c.height as int;
    assert(rgb_text(colour(0, 0, 0)) =~= seq!['0', ' ', '0', ' ', '0']);
    assert forall|k: int| 0 <= k < c.lines().len() implies c.lines()[k] == seq![
        '0',
        ' ',
        '0',
        ' ',
        '0',
    ] by {
        lemma_position_split(k, w, h);
    }
}

/// Serializing depends on nothing but the size and the pixels: two
/// serializations of a canvas with no write between them are identical.
pub proof fn lemma_serialize_deterministic(a: Canvas, b: Canvas)
    requires
        a.wf(),
        b.wf(),
        a.width == b.width,
        a.height == b.height,
        forall|x: int, y: int| 0 <= x < a.width && 0 <= y < a.height ==> a.pixel(x, y) == b.pixel(x, y),
    ensures
        a.header() == b.header(),
        a.body() == b.body(),
{
    let w = a.width as int;
    let h = a.height as int;
    assert forall|k: int| 0 <= k < a.lines().len() implies a.lines()[k] == b.lines()[k] by {
        lemma_position_split(k, w, h);
    }
    assert(a.lines() =~= b.lines());
}

/// A position below `w * h` names a column below `w` and a row below `h`.
pub proof fn lemma_position_split(k: int, w: int, h: int)
    requires
        0 <= k < w * h,
        0 <= w,
        0 <= h,
    ensures
        0 <= k % w < w,
        0 <= k / w < h,
{
    if w == 0 {
        assert(w * h == 0);
    } else {
        vstd::arithmetic::div_mod::lemma_mod_bound(k, w);
        vstd::arithmetic::div_mod::lemma_div_pos_is_pos(k, w);
        vstd::arithmetic::div_mod::lemma_fundamental_div_mod(k, w);
        assert(k / w < h) by (nonlinear_arith)
            requires
                k == w * (k / w) + k % w,
                0 <= k % w,
                k < w * h,
                0 < w,
        ;
    }
}

} // verus!
