//! The glyph grid: one row per line, every row padded to the widest line,
//! and whether decorative blocks occur in it.
use vstd::prelude::*;
use crate::text::{lines, scan_lines, is_deco, split_lines, deco_glyph};

verus! {

/// The shortest horizontal or vertical run of decorative glyphs that counts as a block.
pub const MIN_RUN: usize = 4;

/// A line as the grid shows it: one carriage return before its end is dropped.
pub open spec fn trim_cr(l: Seq<char>) -> Seq<char> {
    if l.len() > 0 && l.last() == '\r' {
        l.drop_last()
    } else {
        l
    }
}

/// The lines of a text as the grid shows them.
pub open spec fn grid_lines(s: Seq<char>) -> Seq<Seq<char>> {
    lines(s).map_values(|l: Seq<char>| trim_cr(l))
}

/// The length of the longest of the given lines (0 for none).
pub open spec fn max_len(ls: Seq<Seq<char>>) -> nat
    decreases ls.len(),
{
    if ls.len() == 0 {
        0
    } else {
        let m = max_len(ls.drop_last());
        if ls.last().len() > m {
            ls.last().len()
        } else {
            m
        }
    }
}

/// A line padded with blanks up to `w` glyphs.
pub open spec fn pad(l: Seq<char>, w: nat) -> Seq<char> {
    l + Seq::new((w - l.len()) as nat, |k: int| ' ')
}

/// The rows of the grid of a text.
pub open spec fn grid_rows(s: Seq<char>) -> Seq<Seq<char>> {
    grid_lines(s).map_values(|l: Seq<char>| pad(l, max_len(grid_lines(s))))
}

/// A horizontal run of decorative glyphs starts at row `r`, column `c`.
pub open spec fn h_run(rows: Seq<Seq<char>>, r: int, c: int) -> bool {
    &&& 0 <= r < rows.len()
    &&& 0 <= c
    &&& c + MIN_RUN <= rows[r].len()
    &&& forall|k: int| 0 <= k < MIN_RUN ==> is_deco(#[trigger] rows[r][c + k])
}

/// A vertical run of decorative glyphs starts at row `r`, column `c`.
pub open spec fn v_run(rows: Seq<Seq<char>>, r: int, c: int) -> bool {
    &&& 0 <= r
    &&& r + MIN_RUN <= rows.len()
    &&& 0 <= c
    &&& forall|k: int| 0 <= k < MIN_RUN ==> c < (#[trigger] rows[r + k]).len() && is_deco(rows[r + k][c])
}

/// The rows hold a block: a run of at least `MIN_RUN` decorative glyphs in a row or a column.
pub open spec fn has_block(rows: Seq<Seq<char>>) -> bool {
    exists|r: int, c: int| h_run(rows, r, c) || v_run(rows, r, c)
}

/// The grid of a document's glyphs.
pub struct NfoRendererGrid {
    rows: Vec<Vec<char>>,
    width: usize,
    blocks: bool,
}

impl NfoRendererGrid {
    /// The rows of the grid.
    pub closed spec fn cells(&self) -> Seq<Seq<char>> {
        Seq::new(self.rows@.len(), |i: int| self.rows@[i]@)
    }

    /// The number of columns of the grid.
    pub closed spec fn cols(&self) -> nat {
        self.width as nat
    }

    /// Whether the grid holds a block of decorative glyphs.
    pub closed spec fn blocks(&self) -> bool {
        self.blocks
    }

    /// The grid is the grid of text `s`.
    pub open spec fn is_grid_of(&self, s: Seq<char>) -> bool {
        &&& self.cells() == grid_rows(s)
        &&& self.cols() == max_len(grid_lines(s))
        &&& self.blocks() == has_block(grid_rows(s))
    }

    /// Whether the grid holds a block of decorative glyphs.
    pub fn has_blocks(&self) -> (r: bool)
        ensures
            r == self.blocks(),
    {
        self.blocks
    }

    /// The number of rows.
    pub fn get_rows(&self) -> (r: usize)
        ensures
            r == self.cells().len(),
    {
        self.rows.len()
    }

    /// The number of columns.
    pub fn get_cols(&self) -> (r: usize)
        ensures
            r == self.cols(),
    {
        self.width
    }

    /// The glyph at a row and column, if the grid has that cell.
    pub fn get_char(&self, row: usize, col: usize) -> (r: Option<char>)
        ensures
            r == (if row < self.cells().len() && col < self.cells()[row as int].len() {
                Some(self.cells()[row as int][col as int])
            } else {
                None
            }),
    {
        if row < self.rows.len() && col < self.rows[row].len() {
            Some(self.rows[row][col])
        } else {
            None
        }
    }
}

proof fn lemma_max_len_bounds(ls: Seq<Seq<char>>)
    ensures
        forall|i: int| 0 <= i < ls.len() ==> (#[trigger] ls[i]).len() <= max_len(ls),
        ls.len() > 0 ==> exists|i: int| 0 <= i < ls.len() && (#[trigger] ls[i]).len() == max_len(ls),
        ls.len() == 0 ==> max_len(ls) == 0,
    decreases ls.len(),
{
    if ls.len() > 0 {
        let p = ls.drop_last();
        lemma_max_len_bounds(p);
        assert(forall|i: int| 0 <= i < p.len() ==> p[i] == ls[i]);
        if ls.last().len() <= max_len(p) && p.len() > 0 {
            let i = choose|i: int| 0 <= i < p.len() && (#[trigger] p[i]).len() == max_len(p);
            assert(ls[i].len() == max_len(ls));
        } else {
            assert(ls[ls.len() - 1].len() == max_len(ls));
        }
    }
}

/// Every row of a text's grid has as many columns as its longest line, and
/// the grid has as many rows as the text has lines; no line is cut short.
pub proof fn lemma_grid_shape(s: Seq<char>)
    ensures
        grid_rows(s).len() == lines(s).len(),
        forall|r: int| 0 <= r < grid_rows(s).len() ==>
            (#[trigger] grid_rows(s)[r]).len() == max_len(grid_lines(s))
            && grid_rows(s)[r].take(grid_lines(s)[r].len() as int) == grid_lines(s)[r],
{
    let gl = grid_lines(s);
    lemma_max_len_bounds(gl);
    assert forall|r: int| 0 <= r < grid_rows(s).len() implies
        (#[trigger] grid_rows(s)[r]).len() == max_len(gl)
        && grid_rows(s)[r].take(gl[r].len() as int) == gl[r] by {
        assert(gl[r].len() <= max_len(gl));
        assert(grid_rows(s)[r].take(gl[r].len() as int) =~= gl[r]);
    }
}

/// Copies the first `len` glyphs of `l` and pads with blanks up to `w`.
fn padded_row(l: &Vec<char>, len: usize, w: usize) -> (r: Vec<char>)
    requires
        len <= l@.len(),
        len <= w,
    ensures
        r@ == pad(l@.take(len as int), w as nat),
{
    let mut out: Vec<char> = Vec::new();
    for j in 0..len
        invariant
            len <= l@.len(),
            out@ == l@.take(j as int),
    {
        out.push(l[j]);
        assert(l@.take(j + 1) =~= l@.take(j as int).push(l@[j as int]));
    }
    let mut k: usize = len;
    while k < w
        invariant
            len <= k <= w,
            len <= l@.len(),
            out@ == pad(l@.take(len as int), k as nat),
        decreases w - k,
    {
        out.push(' ');
        k = k + 1;
        assert(out@ =~= pad(l@.take(len as int), k as nat));
    }
    out
}

/// Whether a horizontal run starts at `r`, `c`.
fn h_run_at(rows: &Vec<Vec<char>>, r: usize, c: usize) -> (b: bool)
    requires
        r < rows@.len(),
    ensures
        b == h_run(Seq::new(rows@.len(), |i: int| rows@[i]@), r as int, c as int),
{
    let ghost cs = Seq::new(rows@.len(), |i: int| rows@[i]@);
    let row = &rows[r];
    let len = row.len();
    if c >= len || len - c < MIN_RUN {
        return false;
    }
    for k in 0..MIN_RUN
        invariant
            r < rows@.len(),
            len == row@.len(),
            c + MIN_RUN <= len,
            *row == rows@[r as int],
            cs == Seq::new(rows@.len(), |i: int| rows@[i]@),
            forall|m: int| 0 <= m < k ==> is_deco(#[trigger] cs[r as int][c + m]),
    {
        if !deco_glyph(row[c + k]) {
            assert(!is_deco(cs[r as int][c + k]));
            return false;
        }
    }
    true
}

/// Whether a vertical run starts at `r`, `c`.
fn v_run_at(rows: &Vec<Vec<char>>, r: usize, c: usize) -> (b: bool)
    ensures
        b == v_run(Seq::new(rows@.len(), |i: int| rows@[i]@), r as int, c as int),
{
    let ghost cs = Seq::new(rows@.len(), |i: int| rows@[i]@);
    let n = rows.len();
    if r >= n || n - r < MIN_RUN {
        return false;
    }
    for k in 0..MIN_RUN
        invariant
            n == rows@.len(),
            r + MIN_RUN <= n,
            cs == Seq::new(rows@.len(), |i: int| rows@[i]@),
            forall|m: int| 0 <= m < k ==> c < (#[trigger] cs[r + m]).len() && is_deco(cs[r + m][c as int]),
    {
        let row = &rows[r + k];
        if c >= row.len() {
            assert(!(c < cs[r + k].len()));
            return false;
        }
        if !deco_glyph(row[c]) {
            assert(!is_deco(cs[r + k][c as int]));
            return false;
        }
    }
    true
}

/// Searches the rows for a block.
fn find_block(rows: &Vec<Vec<char>>, w: usize) -> (b: bool)
    requires
        forall|i: int| 0 <= i < rows@.len() ==> (#[trigger] rows@[i])@.len() == w,
    ensures
        b == has_block(Seq::new(rows@.len(), |i: int| rows@[i]@)),
{
    let ghost cs = Seq::new(rows@.len(), |i: int| rows@[i]@);
    let n = rows.len();
    for r in 0..n
        invariant
            n == rows@.len(),
            cs == Seq::new(rows@.len(), |i: int| rows@[i]@),
            forall|i: int| 0 <= i < rows@.len() ==> (#[trigger] rows@[i])@.len() == w,
            forall|i: int, c: int| 0 <= i < r ==> !h_run(cs, i, c) && !v_run(cs, i, c),
    {
        for c in 0..w
            invariant
                n == rows@.len(),
                r < n,
                cs == Seq::new(rows@.len(), |i: int| rows@[i]@),
                forall|i: int| 0 <= i < rows@.len() ==> (#[trigger] rows@[i])@.len() == w,
                forall|i: int, c2: int| 0 <= i < r ==> !h_run(cs, i, c2) && !v_run(cs, i, c2),
                forall|c2: int| 0 <= c2 < c ==> !h_run(cs, r as int, c2) && !v_run(cs, r as int, c2),
        {
            if h_run_at(rows, r, c) || v_run_at(rows, r, c) {
                return true;
            }
        }
        assert forall|c2: int| !h_run(cs, r as int, c2) && !v_run(cs, r as int, c2) by {
            if c2 >= w || c2 < 0 {
                assert(cs[r as int].len() == w);
                if v_run(cs, r as int, c2) {
                    assert(c2 < cs[r as int + 0].len());
                }
            }
        }
    }
    false
}

/// Lays a text out as a grid and looks for blocks in it.
pub fn make_renderer_grid(s: &Vec<char>) -> (g: NfoRendererGrid)
    ensures
        g.is_grid_of(s@),
{
    let ls = split_lines(s);
    let ghost gl = grid_lines(s@);
    let n = ls.len();
    let mut lens: Vec<usize> = Vec::new();
    let mut w: usize = 0;
    for i in 0..n
        invariant
            n == ls@.len(),
            n == lines(s@).len(),
            gl == grid_lines(s@),
            forall|k: int| 0 <= k < ls@.len() ==> (#[trigger] ls@[k])@ == lines(s@)[k],
            lens@.len() == i,
            forall|k: int| 0 <= k < i ==> (#[trigger] lens@[k]) == gl[k].len(),
            w == max_len(gl.take(i as int)),
    {
        let l = &ls[i];
        let mut len = l.len();
        if len > 0 && l[len - 1] == '\r' {
            len = len - 1;
        }
        assert(len == gl[i as int].len());
        lens.push(len);
        assert(gl.take(i + 1).drop_last() =~= gl.take(i as int));
        if len > w {
            w = len;
        }
    }
    assert(gl.take(n as int) =~= gl);
    let mut rows: Vec<Vec<char>> = Vec::new();
    proof {
        lemma_max_len_bounds(gl);
    }
    for i in 0..n
        invariant
            n == ls@.len(),
            n == lines(s@).len(),
            gl == grid_lines(s@),
            forall|k: int| 0 <= k < ls@.len() ==> (#[trigger] ls@[k])@ == lines(s@)[k],
            lens@.len() == n,
            forall|k: int| 0 <= k < n ==> (#[trigger] lens@[k]) == gl[k].len(),
            forall|k: int| 0 <= k < gl.len() ==> (#[trigger] gl[k]).len() <= max_len(gl),
            w == max_len(gl),
            rows@.len() == i,
            forall|k: int| 0 <= k < i ==> (#[trigger] rows@[k])@ == grid_rows(s@)[k],
    {
        assert(gl[i as int] == ls@[i as int]@.take(lens@[i as int] as int));
        let row = padded_row(&ls[i], lens[i], w);
        rows.push(row);
    }
    let ghost cs = Seq::new(rows@.len(), |i: int| rows@[i]@);
    assert(cs =~= grid_rows(s@));
    let b = find_block(&rows, w);
    NfoRendererGrid { rows, width: w, blocks: b }
}


/// No glyph of `s` is decorative.
pub open spec fn is_prose(s: Seq<char>) -> bool {
    forall|i: int| 0 <= i < s.len() ==> !is_deco(#[trigger] s[i])
}

proof fn lemma_scan_prose(s: Seq<char>)
    requires
        is_prose(s),
    ensures
        forall|i: int| 0 <= i < scan_lines(s).0.len() ==> is_prose(#[trigger] scan_lines(s).0[i]),
        is_prose(scan_lines(s).1),
    decreases s.len(),
{
    if s.len() > 0 {
        let p = s.drop_last();
        assert(is_prose(p)) by {
            assert forall|i: int| 0 <= i < p.len() implies !is_deco(#[trigger] p[i]) by {
                assert(p[i] == s[i]);
            }
        }
        lemma_scan_prose(p);
        assert(!is_deco(s[s.len() - 1]));
    }
}

/// A text without decorative glyphs has no blocks.
pub proof fn lemma_prose_has_no_blocks(s: Seq<char>)
    requires
        is_prose(s),
    ensures
        !has_block(grid_rows(s)),
{
    lemma_scan_prose(s);
    let rows = grid_rows(s);
    let gl = grid_lines(s);
    assert forall|r: int, c: int| 0 <= r < rows.len() && 0 <= c < rows[r].len() implies !is_deco(
        #[trigger] rows[r][c]) by {
        let l = lines(s)[r];
        assert(is_prose(l));
        if c < gl[r].len() {
            assert(rows[r][c] == l[c]);
        }
    }
    if has_block(rows) {
        let (r, c) = choose|r: int, c: int| h_run(rows, r, c) || v_run(rows, r, c);
        if h_run(rows, r, c) {
            assert(is_deco(rows[r][c + 0]));
        } else {
            assert(c < rows[r + 0].len() && is_deco(rows[r + 0][c]));
        }
    }
}

} // verus!
