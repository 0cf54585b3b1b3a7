//! The filter graph handed to the external transcoder: one stage per cell of
//! the grid, and one compositing stage that lays the cells out.
//!
//! A graph is first built as a value, so that its shape can be stated and
//! checked, and only then written out as the transcoder's expression.

use crate::layout::{capacity, grid_cells};
use crate::text::{decimal_text, push_decimal};
use vstd::arithmetic::div_mod::{
    lemma_fundamental_div_mod, lemma_fundamental_div_mod_converse, lemma_mod_bound,
    lemma_multiply_divide_lt,
};
use vstd::prelude::*;

verus! {

/// Width in pixels of a cell of the grid, unless a caller says otherwise.
pub const CELL_WIDTH: u32 = 640;

/// Height in pixels of a cell of the grid, unless a caller says otherwise.
pub const CELL_HEIGHT: u32 = 360;

/// A grid and the pixel size of each of its cells.
#[derive(Clone, Copy, Debug, PartialEq, Eq)]
pub struct Geometry {
    pub cols: u32,
    pub rows: u32,
    pub cell_w: u32,
    pub cell_h: u32,
}

impl Geometry {
    /// A geometry is well formed when the grid has at least one cell and a
    /// cell has at least one pixel.
    pub open spec fn wf(self) -> bool {
        &&& self.cols > 0
        &&& self.rows > 0
        &&& self.cell_w > 0
        &&& self.cell_h > 0
    }

    /// The number of cells of the grid.
    pub open spec fn cells(self) -> nat {
        capacity(self.cols, self.rows)
    }

    /// The top-left pixel of the cell in row `row` and column `col`.
    pub open spec fn offset(self, row: nat, col: nat) -> (u64, u64) {
        ((col * self.cell_w) as u64, (row * self.cell_h) as u64)
    }

    /// The top-left pixel of the `k`-th cell, counting row by row.
    pub open spec fn cell_offset(self, k: nat) -> (u64, u64) {
        if self.cols == 0 {
            (0, 0)
        } else {
            self.offset(k / (self.cols as nat), k % (self.cols as nat))
        }
    }

    /// The geometry of a `cols` by `rows` grid of cells of the usual size.
    pub fn standard(cols: u32, rows: u32) -> (g: Geometry)
        ensures
            g == (Geometry { cols, rows, cell_w: CELL_WIDTH, cell_h: CELL_HEIGHT }),
    {
        Geometry { cols, rows, cell_w: CELL_WIDTH, cell_h: CELL_HEIGHT }
    }
}

/// One stage of a filter graph that produces a video stream.
#[derive(Clone, Copy, Debug, PartialEq, Eq)]
pub enum Stage {
    /// The first source, scaled to the cell size, with its timestamps reset,
    /// sent straight to the output tap.
    Direct,
    /// Source number `input`, scaled to the cell size, with its timestamps
    /// reset, labelled as the cell of the same number.
    Scale { input: u64 },
    /// A black picture of the cell size, labelled as cell number `cell`.
    Filler { cell: u64 },
}

/// A filter graph: the stages that feed the cells, and the pixel offsets at
/// which the compositing stage, if there is one, places its inputs. The
/// compositing stage takes as many inputs as it has offsets, the cells 0, 1,
/// 2 and so on, and sends its result to the output tap.
#[derive(Clone, Debug, PartialEq, Eq)]
pub struct FilterGraph {
    pub cell_w: u32,
    pub cell_h: u32,
    pub stages: Vec<Stage>,
    pub compositor: Option<Vec<(u64, u64)>>,
}

/// What a filter graph holds, as mathematical values.
pub struct FilterGraphView {
    pub cell_w: u32,
    pub cell_h: u32,
    pub stages: Seq<Stage>,
    pub compositor: Option<Seq<(u64, u64)>>,
}

impl View for FilterGraph {
    type V = FilterGraphView;

    open spec fn view(&self) -> FilterGraphView {
        FilterGraphView {
            cell_w: self.cell_w,
            cell_h: self.cell_h,
            stages: self.stages@,
            compositor: match self.compositor {
                Some(offsets) => Some(offsets@),
                None => None,
            },
        }
    }
}

/// The stage that feeds cell `i` when there are `sources` real sources: a
/// scaled source while sources last, a black filler after that.
pub open spec fn stage_at(i: int, sources: nat) -> Stage {
    if i < sources {
        Stage::Scale { input: i as u64 }
    } else {
        Stage::Filler { cell: i as u64 }
    }
}

/// The number of stages of a graph for `sources` sources on a grid of
/// `cells` cells: every source is scaled, and every cell is fed.
pub open spec fn stage_count(cells: nat, sources: nat) -> nat {
    if sources > cells {
        sources
    } else {
        cells
    }
}

/// The filter graph for `sources` real sources on the grid `g`.
///
/// A grid of at most one cell needs no compositing: the first source goes
/// straight to the output tap. On a larger grid every source is scaled into
/// the cell of its number, every cell that no source feeds gets a filler, and
/// one compositing stage takes all the cells, row by row.
pub open spec fn synthesized(g: Geometry, sources: nat) -> FilterGraphView {
    if g.cells() <= 1 {
        FilterGraphView {
            cell_w: g.cell_w,
            cell_h: g.cell_h,
            stages: seq![Stage::Direct],
            compositor: None,
        }
    } else {
        FilterGraphView {
            cell_w: g.cell_w,
            cell_h: g.cell_h,
            stages: Seq::new(stage_count(g.cells(), sources), |i: int| stage_at(i, sources)),
            compositor: Some(Seq::new(g.cells(), |k: int| g.cell_offset(k as nat))),
        }
    }
}

/// The number of stages of `stages` that scale a real source.
pub open spec fn scaled_stages(stages: Seq<Stage>) -> nat
    decreases stages.len(),
{
    if stages.len() == 0 {
        0
    } else {
        scaled_stages(stages.drop_last()) + if stages.last() is Scale {
            1nat
        } else {
            0nat
        }
    }
}

/// The number of stages of `stages` that fill a cell with black.
pub open spec fn filler_stages(stages: Seq<Stage>) -> nat
    decreases stages.len(),
{
    if stages.len() == 0 {
        0
    } else {
        filler_stages(stages.drop_last()) + if stages.last() is Filler {
            1nat
        } else {
            0nat
        }
    }
}

/// Among the first `len` stages of a graph for `sources` sources, those
/// before `sources` scale and the others fill.
proof fn lemma_count_stages(len: nat, sources: nat)
    ensures
        scaled_stages(Seq::new(len, |i: int| stage_at(i, sources))) == if len <= sources {
            len
        } else {
            sources
        },
        filler_stages(Seq::new(len, |i: int| stage_at(i, sources))) == if len <= sources {
            0
        } else {
            len - sources
        },
    decreases len,
{
    let s = Seq::new(len, |i: int| stage_at(i, sources));
    if len > 0 {
        lemma_count_stages((len - 1) as nat, sources);
        assert(s.drop_last() =~= Seq::new((len - 1) as nat, |i: int| stage_at(i, sources)));
        assert(s.last() == stage_at(len - 1, sources));
    }
}

/// On a grid of two cells or more that has room for all the sources, the
/// graph holds one scaled stage for each source and one filler for each cell
/// that is left, and its compositing stage takes as many inputs as the grid
/// has cells.
pub proof fn lemma_stage_counts(g: Geometry, sources: nat)
    requires
        g.cells() >= 2,
        sources <= g.cells(),
    ensures
        synthesized(g, sources).compositor is Some,
        synthesized(g, sources).compositor->0.len() == g.cells(),
        synthesized(g, sources).stages.len() == g.cells(),
        scaled_stages(synthesized(g, sources).stages) == sources,
        filler_stages(synthesized(g, sources).stages) == g.cells() - sources,
{
    lemma_count_stages(g.cells(), sources);
}

/// On a grid of a single cell the graph has no compositing stage, however
/// many sources there are: its only stage sends the first source to the
/// output tap.
pub proof fn lemma_single_cell_direct(g: Geometry, sources: nat)
    requires
        g.cells() <= 1,
    ensures
        synthesized(g, sources).compositor is None,
        synthesized(g, sources).stages == seq![Stage::Direct],
{
}

/// The cell in row `row` and column `col` is cell number `row * cols + col`,
/// and its top-left pixel is `(col * cell_w, row * cell_h)`.
pub proof fn lemma_offset_row_major(g: Geometry, row: nat, col: nat)
    requires
        g.cols > 0,
        row < g.rows,
        col < g.cols,
    ensures
        row * g.cols + col < g.cells(),
        g.cell_offset((row * g.cols + col) as nat) == g.offset(row, col),
        g.offset(row, col).0 == col * g.cell_w,
        g.offset(row, col).1 == row * g.cell_h,
{
    let cols = g.cols as int;
    let k = row * cols + col;
    lemma_fundamental_div_mod_converse(k, cols, row as int, col as int);
    assert(row * cols + col < g.rows * g.cols) by (nonlinear_arith)
        requires
            row < g.rows,
            col < cols,
            cols == g.cols,
            0 <= col,
    ;
    assert(g.rows * g.cols == g.cols * g.rows) by (nonlinear_arith);
    lemma_offset_fits(g, row, col);
}

/// The compositing stage places the cell in row `row` and column `col` as
/// its input number `row * cols + col`, at the pixel
/// `(col * cell_w, row * cell_h)`.
pub proof fn lemma_compositor_row_major(g: Geometry, sources: nat, row: nat, col: nat)
    requires
        g.cells() >= 2,
        row < g.rows,
        col < g.cols,
    ensures
        synthesized(g, sources).compositor is Some,
        row * g.cols + col < synthesized(g, sources).compositor->0.len(),
        synthesized(g, sources).compositor->0[row * g.cols + col].0 == col * g.cell_w,
        synthesized(g, sources).compositor->0[row * g.cols + col].1 == row * g.cell_h,
{
    lemma_offset_row_major(g, row, col);
}

/// The pixel offsets of a cell fit 64 bits.
proof fn lemma_offset_fits(g: Geometry, row: nat, col: nat)
    requires
        row < g.rows,
        col < g.cols,
    ensures
        col * g.cell_w <= 0xFFFF_FFFF * 0xFFFF_FFFF,
        row * g.cell_h <= 0xFFFF_FFFF * 0xFFFF_FFFF,
{
    assert(col * g.cell_w <= 0xFFFF_FFFF * 0xFFFF_FFFF) by (nonlinear_arith)
        requires
            col <= 0xFFFF_FFFF,
            g.cell_w <= 0xFFFF_FFFF,
    ;
    assert(row * g.cell_h <= 0xFFFF_FFFF * 0xFFFF_FFFF) by (nonlinear_arith)
        requires
            row <= 0xFFFF_FFFF,
            g.cell_h <= 0xFFFF_FFFF,
    ;
}

/// No two cells of a well-formed geometry share their top-left pixel.
pub proof fn lemma_offsets_distinct(g: Geometry, row1: nat, col1: nat, row2: nat, col2: nat)
    requires
        g.wf(),
        row1 < g.rows,
        col1 < g.cols,
        row2 < g.rows,
        col2 < g.cols,
        (row1, col1) != (row2, col2),
    ensures
        g.offset(row1, col1) != g.offset(row2, col2),
{
    lemma_offset_fits(g, row1, col1);
    lemma_offset_fits(g, row2, col2);
    if col1 != col2 {
        assert(col1 * g.cell_w != col2 * g.cell_w) by (nonlinear_arith)
            requires
                col1 != col2,
                g.cell_w > 0,
        ;
    } else {
        assert(row1 * g.cell_h != row2 * g.cell_h) by (nonlinear_arith)
            requires
                row1 != row2,
                g.cell_h > 0,
        ;
    }
}

/// The offsets at which the compositing stage of a well-formed geometry
/// places two different inputs are different.
pub proof fn lemma_compositor_offsets_distinct(g: Geometry, sources: nat, i: int, j: int)
    requires
        g.wf(),
        g.cells() >= 2,
        0 <= i < g.cells(),
        0 <= j < g.cells(),
        i != j,
    ensures
        synthesized(g, sources).compositor->0[i] != synthesized(g, sources).compositor->0[j],
{
    let cols = g.cols as int;
    lemma_cell_position(g, i as nat);
    lemma_cell_position(g, j as nat);
    lemma_fundamental_div_mod(i, cols);
    lemma_fundamental_div_mod(j, cols);
    if i / cols == j / cols && i % cols == j % cols {
        assert(i == j);
    }
    lemma_offsets_distinct(
        g,
        (i / cols) as nat,
        (i % cols) as nat,
        (j / cols) as nat,
        (j % cols) as nat,
    );
}

/// Cell number `k` of the grid stands in a row and a column of the grid.
proof fn lemma_cell_position(g: Geometry, k: nat)
    requires
        g.cols > 0,
        k < g.cells(),
    ensures
        0 <= (k as int) / (g.cols as int) < g.rows,
        0 <= (k as int) % (g.cols as int) < g.cols,
{
    let cols = g.cols as int;
    lemma_mod_bound(k as int, cols);
    assert(g.cols * g.rows == g.rows * g.cols) by (nonlinear_arith);
    lemma_multiply_divide_lt(k as int, cols, g.rows as int);
    assert(0 <= (k as int) / cols) by (nonlinear_arith)
        requires
            0 <= k,
            0 < cols,
    ;
}

/// Builds the filter graph for `sources` real sources on the grid `geometry`.
pub fn synthesize(geometry: Geometry, sources: usize) -> (graph: FilterGraph)
    ensures
        graph@ == synthesized(geometry, sources as nat),
{
    let cells: u64 = grid_cells(geometry.cols, geometry.rows);
    if cells <= 1 {
        let mut stages: Vec<Stage> = Vec::new();
        stages.push(Stage::Direct);
        assert(stages@ =~= seq![Stage::Direct]);
        return FilterGraph {
            cell_w: geometry.cell_w,
            cell_h: geometry.cell_h,
            stages,
            compositor: None,
        };
    }
    let mut stages: Vec<Stage> = Vec::new();
    while stages.len() < sources
        invariant
            stages.len() <= sources,
            forall|i: int| 0 <= i < stages.len() ==> stages@[i] == stage_at(i, sources as nat),
        decreases sources - stages.len(),
    {
        let input: u64 = stages.len() as u64;
        stages.push(Stage::Scale { input });
    }
    while (stages.len() as u64) < cells
        invariant
            cells == geometry.cells(),
            sources <= stages.len() <= stage_count(geometry.cells(), sources as nat),
            forall|i: int| 0 <= i < stages.len() ==> stages@[i] == stage_at(i, sources as nat),
        decreases cells - stages.len(),
    {
        let cell: u64 = stages.len() as u64;
        stages.push(Stage::Filler { cell });
    }
    assert(stages@ =~= Seq::new(
        stage_count(geometry.cells(), sources as nat),
        |i: int| stage_at(i, sources as nat),
    ));
    let cols: u64 = geometry.cols as u64;
    let mut offsets: Vec<(u64, u64)> = Vec::new();
    while (offsets.len() as u64) < cells
        invariant
            cells == geometry.cells(),
            cols == geometry.cols,
            cols > 0,
            offsets.len() <= cells,
            forall|k: int|
                0 <= k < offsets.len() ==> offsets@[k] == geometry.cell_offset(k as nat),
        decreases cells - offsets.len(),
    {
        let k: u64 = offsets.len() as u64;
        let row: u64 = k / cols;
        let col: u64 = k % cols;
        proof {
            lemma_cell_position(geometry, k as nat);
            lemma_offset_fits(geometry, row as nat, col as nat);
        }
        let x: u64 = col * (geometry.cell_w as u64);
        let y: u64 = row * (geometry.cell_h as u64);
        offsets.push((x, y));
    }
    assert(offsets@ =~= Seq::new(geometry.cells(), |k: int| geometry.cell_offset(k as nat)));
    FilterGraph {
        cell_w: geometry.cell_w,
        cell_h: geometry.cell_h,
        stages,
        compositor: Some(offsets),
    }
}

/// The label under which the compositing stage sends out its result.
pub const OUTPUT_TAP: &'static str = "[out]";

/// The scaling and timestamp-reset filter for a cell of `w` by `h` pixels.
pub open spec fn scale_text(w: u32, h: u32) -> Seq<char> {
    "scale="@ + decimal_text(w as nat) + ":"@ + decimal_text(h as nat) + ",setpts=PTS-STARTPTS"@
}

/// The label of cell number `k`.
pub open spec fn cell_label(k: nat) -> Seq<char> {
    "[v"@ + decimal_text(k) + "]"@
}

/// The transcoder's expression for one stage, for cells of `w` by `h` pixels.
pub open spec fn stage_text(stage: Stage, w: u32, h: u32) -> Seq<char> {
    match stage {
        Stage::Direct => "[0:v]"@ + scale_text(w, h) + "[out]"@,
        Stage::Scale { input } => "["@ + decimal_text(input as nat) + ":v]"@ + scale_text(w, h)
            + cell_label(input as nat) + ";"@,
        Stage::Filler { cell } => "color=black:s="@ + decimal_text(w as nat) + "x"@ + decimal_text(
            h as nat,
        ) + ":r=1"@ + cell_label(cell as nat) + ";"@,
    }
}

/// The expressions of `stages`, one after the other.
pub open spec fn stages_text(stages: Seq<Stage>, w: u32, h: u32) -> Seq<char>
    decreases stages.len(),
{
    if stages.len() == 0 {
        Seq::empty()
    } else {
        stages_text(stages.drop_last(), w, h) + stage_text(stages.last(), w, h)
    }
}

/// The labels of the cells 0 to `n - 1`, one after the other.
pub open spec fn labels_text(n: nat) -> Seq<char>
    decreases n,
{
    if n == 0 {
        Seq::empty()
    } else {
        labels_text((n - 1) as nat) + cell_label((n - 1) as nat)
    }
}

/// A pixel offset as the compositing stage reads it: `x_y`.
pub open spec fn offset_text(offset: (u64, u64)) -> Seq<char> {
    decimal_text(offset.0 as nat) + "_"@ + decimal_text(offset.1 as nat)
}

/// The offsets `offsets` as the compositing stage reads them, with a `|`
/// between one and the next.
pub open spec fn offsets_text(offsets: Seq<(u64, u64)>) -> Seq<char>
    decreases offsets.len(),
{
    if offsets.len() == 0 {
        Seq::empty()
    } else if offsets.len() == 1 {
        offset_text(offsets[0])
    } else {
        offsets_text(offsets.drop_last()) + "|"@ + offset_text(offsets.last())
    }
}

/// The compositing stage that places its inputs at `offsets`: the labels of
/// its inputs, their number, their offsets, and black for what no input
/// covers.
pub open spec fn compositor_text(offsets: Seq<(u64, u64)>) -> Seq<char> {
    labels_text(offsets.len()) + "xstack=inputs="@ + decimal_text(offsets.len()) + ":layout="@
        + offsets_text(offsets) + ":fill=black[out]"@
}

impl FilterGraphView {
    /// The transcoder's expression for the whole graph.
    pub open spec fn text(self) -> Seq<char> {
        stages_text(self.stages, self.cell_w, self.cell_h) + match self.compositor {
            Some(offsets) => compositor_text(offsets),
            None => Seq::empty(),
        }
    }
}

/// Appends the scaling filter for cells of `w` by `h` pixels to `out`.
fn push_scale(out: &mut String, w: u32, h: u32)
    ensures
        final(out)@ == old(out)@ + scale_text(w, h),
{
    out.append("scale=");
    push_decimal(out, w as u64);
    out.append(":");
    push_decimal(out, h as u64);
    out.append(",setpts=PTS-STARTPTS");
    assert(final(out)@ =~= old(out)@ + scale_text(w, h));
}

/// Appends the label of cell number `k` to `out`.
fn push_cell_label(out: &mut String, k: u64)
    ensures
        final(out)@ == old(out)@ + cell_label(k as nat),
{
    out.append("[v");
    push_decimal(out, k);
    out.append("]");
    assert(final(out)@ =~= old(out)@ + cell_label(k as nat));
}

/// Appends the expression of `stage` to `out`.
fn push_stage(out: &mut String, stage: Stage, w: u32, h: u32)
    ensures
        final(out)@ == old(out)@ + stage_text(stage, w, h),
{
    match stage {
        Stage::Direct => {
            out.append("[0:v]");
            push_scale(out, w, h);
            out.append("[out]");
        },
        Stage::Scale { input } => {
            out.append("[");
            push_decimal(out, input);
            out.append(":v]");
            push_scale(out, w, h);
            push_cell_label(out, input);
            out.append(";");
        },
        Stage::Filler { cell } => {
            out.append("color=black:s=");
            push_decimal(out, w as u64);
            out.append("x");
            push_decimal(out, h as u64);
            out.append(":r=1");
            push_cell_label(out, cell);
            out.append(";");
        },
    }
    assert(final(out)@ =~= old(out)@ + stage_text(stage, w, h));
}

/// Appends the compositing stage that places its inputs at `offsets` to `out`.
fn push_compositor(out: &mut String, offsets: &Vec<(u64, u64)>)
    ensures
        final(out)@ == old(out)@ + compositor_text(offsets@),
{
    let n: usize = offsets.len();
    let mut k: usize = 0;
    while k < n
        invariant
            k <= n,
            out@ == old(out)@ + labels_text(k as nat),
        decreases n - k,
    {
        push_cell_label(out, k as u64);
        k += 1;
        assert(out@ =~= old(out)@ + labels_text(k as nat));
    }
    out.append("xstack=inputs=");
    push_decimal(out, n as u64);
    out.append(":layout=");
    let ghost before = out@;
    let mut i: usize = 0;
    while i < n
        invariant
            i <= n,
            n == offsets.len(),
            out@ == before + offsets_text(offsets@.take(i as int)),
        decreases n - i,
    {
        if i > 0 {
            out.append("|");
        }
        push_decimal(out, offsets[i].0);
        out.append("_");
        push_decimal(out, offsets[i].1);
        proof {
            let next = offsets@.take(i + 1);
            assert(next.drop_last() =~= offsets@.take(i as int));
            assert(next.last() == offsets@[i as int]);
            if i == 0 {
                assert(offsets@.take(0).len() == 0);
            }
            assert(out@ =~= before + offsets_text(next));
        }
        i += 1;
    }
    assert(offsets@.take(n as int) =~= offsets@);
    out.append(":fill=black[out]");
    assert(final(out)@ =~= old(out)@ + compositor_text(offsets@));
}

impl FilterGraph {
    /// The label of the stream that the graph produces.
    pub fn output_tap(&self) -> (tap: &'static str)
        ensures
            tap@ == "[out]"@,
    {
        OUTPUT_TAP
    }

    /// Writes the graph out as the transcoder's filter expression.
    pub fn render(&self) -> (expression: String)
        ensures
            expression@ == self@.text(),
    {
        let mut out = String::new();
        let n: usize = self.stages.len();
        let mut i: usize = 0;
        while i < n
            invariant
                i <= n,
                n == self.stages.len(),
                out@ == stages_text(self.stages@.take(i as int), self.cell_w, self.cell_h),
            decreases n - i,
        {
            push_stage(&mut out, self.stages[i], self.cell_w, self.cell_h);
            proof {
                let next = self.stages@.take(i + 1);
                assert(next.drop_last() =~= self.stages@.take(i as int));
                assert(next.last() == self.stages@[i as int]);
            }
            i += 1;
        }
        assert(self.stages@.take(n as int) =~= self.stages@);
        match &self.compositor {
            Some(offsets) => {
                push_compositor(&mut out, offsets);
            },
            None => {
                assert(out@ =~= self@.text());
            },
        }
        out
    }
}

/// The filter expression and the output tap for `sources` real sources on a
/// grid of `cols` columns and `rows` rows of cells of the usual size.
pub fn filter_complex(cols: u32, rows: u32, sources: usize) -> (r: (String, String))
    ensures
        r.0@ == synthesized(
            Geometry { cols, rows, cell_w: CELL_WIDTH, cell_h: CELL_HEIGHT },
            sources as nat,
        ).text(),
        r.1@ == "[out]"@,
{
    let graph = synthesize(Geometry::standard(cols, rows), sources);
    let expression = graph.render();
    let tap = String::from_str(graph.output_tap());
    (expression, tap)
}

} // verus!
