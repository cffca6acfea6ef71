//! The voxel world: a dense occupancy volume and its run-length form.
//!
//! Every `(x, z)` column of the volume is stored as a list of half-open
//! vertical spans `[bottom, top)` of solid voxels.
use vstd::prelude::*;
use vstd::arithmetic::div_mod::lemma_fundamental_div_mod_converse;
use vstd::arithmetic::mul::lemma_mul_inequality;
use vstd::arithmetic::mul::lemma_mul_is_distributive_add_other_way;
use vstd::arithmetic::mul::lemma_mul_nonnegative;
use std::ops::Range;
use crate::rand::nth_state;
use crate::rand::output;
use crate::rand::ranged;
use crate::rand::Wyhash64;
use crate::utils::to_u32;

verus! {

pub const MAX_SIZE_X: u32 = 256;

pub const MAX_SIZE_Y: u32 = 256;

pub const MAX_SIZE_Z: u32 = 256;

/// Position of cell `(x, y, z)` in the flat storage of a grid with `sx`
/// cells per row and `sy` rows per layer.
pub open spec fn flat_index(sx: int, sy: int, x: int, y: int, z: int) -> int {
    z * sy * sx + y * sx + x
}

/// Cells inside the grid have positions inside its storage.
pub proof fn lemma_flat_index_bound(sx: int, sy: int, sz: int, x: int, y: int, z: int)
    requires
        0 <= x < sx,
        0 <= y < sy,
        0 <= z < sz,
    ensures
        0 <= z * sy <= z * sy + y < sz * sy,
        0 <= z * sy * sx <= z * sy * sx + y * sx <= flat_index(sx, sy, x, y, z),
        flat_index(sx, sy, x, y, z) < sx * sy * sz,
        flat_index(sx, sy, x, y, z) == (z * sy + y) * sx + x,
        sz * sy <= sx * sy * sz,
{
    assert(sz * sy <= sx * sy * sz) by (nonlinear_arith)
        requires
            1 <= sx,
            0 <= sy,
            0 <= sz,
    ;
    let row = z * sy + y;
    lemma_mul_nonnegative(z, sy);
    lemma_mul_inequality(z, sz - 1, sy);
    assert((sz - 1) * sy == sz * sy - sy) by (nonlinear_arith);
    lemma_mul_nonnegative(z * sy, sx);
    lemma_mul_nonnegative(y, sx);
    lemma_mul_is_distributive_add_other_way(sx, z * sy, y);
    lemma_mul_inequality(row, sz * sy - 1, sx);
    assert((sz * sy - 1) * sx == sx * sy * sz - sx) by (nonlinear_arith);
}

/// Distinct cells have distinct positions.
pub proof fn lemma_flat_index_injective(
    sx: int,
    sy: int,
    x: int,
    y: int,
    z: int,
    x2: int,
    y2: int,
    z2: int,
)
    requires
        0 <= x < sx,
        0 <= x2 < sx,
        0 <= y < sy,
        0 <= y2 < sy,
        0 <= z,
        0 <= z2,
        flat_index(sx, sy, x, y, z) == flat_index(sx, sy, x2, y2, z2),
    ensures
        x == x2,
        y == y2,
        z == z2,
{
    let i = flat_index(sx, sy, x, y, z);
    lemma_mul_is_distributive_add_other_way(sx, z * sy, y);
    lemma_mul_is_distributive_add_other_way(sx, z2 * sy, y2);
    lemma_mul_nonnegative(z, sy);
    lemma_mul_nonnegative(z2, sy);
    lemma_fundamental_div_mod_converse(i, sx, z * sy + y, x);
    lemma_fundamental_div_mod_converse(i, sx, z2 * sy + y2, x2);
    let row = z * sy + y;
    lemma_fundamental_div_mod_converse(row, sy, z, y);
    lemma_fundamental_div_mod_converse(row, sy, z2, y2);
}

/// A dense three-dimensional grid of cells; a cell above zero is solid.
pub struct Array3D {
    sx: usize,
    sy: usize,
    sz: usize,
    data: Vec<u32>,
}

impl Array3D {
    /// The storage holds exactly one value per cell.
    pub closed spec fn wf(&self) -> bool {
        self.data.len() == self.sx * self.sy * self.sz
    }

    pub closed spec fn dim_x(&self) -> int {
        self.sx as int
    }

    pub closed spec fn dim_y(&self) -> int {
        self.sy as int
    }

    pub closed spec fn dim_z(&self) -> int {
        self.sz as int
    }

    pub open spec fn in_bounds(&self, x: int, y: int, z: int) -> bool {
        0 <= x < self.dim_x() && 0 <= y < self.dim_y() && 0 <= z < self.dim_z()
    }

    /// The value of cell `(x, y, z)`.
    pub closed spec fn at(&self, x: int, y: int, z: int) -> u32 {
        self.data@[flat_index(self.sx as int, self.sy as int, x, y, z)]
    }

    /// The flat storage, layer by layer and row by row.
    pub closed spec fn cells(&self) -> Seq<u32> {
        self.data@
    }

    /// The occupancy of column `(x, z)`, bottom to top.
    pub open spec fn column(&self, x: int, z: int) -> Seq<bool> {
        Seq::new(self.dim_y() as nat, |y: int| self.at(x, y, z) > 0)
    }

    /// A grid of the given size with every cell set to `init`.
    pub fn new(init: u32, sx: usize, sy: usize, sz: usize) -> (r: Self)
        requires
            sx * sy <= usize::MAX,
            sx * sy * sz <= usize::MAX,
        ensures
            r.wf(),
            r.dim_x() == sx,
            r.dim_y() == sy,
            r.dim_z() == sz,
            r.cells().len() == sx * sy * sz,
            forall|i: int| 0 <= i < r.cells().len() ==> r.cells()[i] == init,
            forall|x: int, y: int, z: int| r.in_bounds(x, y, z) ==> #[trigger] r.at(x, y, z) == init,
    {
        let data = vec![init; sx * sy * sz];
        let r = Self { sx, sy, sz, data };
        proof {
            assert forall|x: int, y: int, z: int| r.in_bounds(x, y, z) implies #[trigger] r.at(
                x,
                y,
                z,
            ) == init by {
                lemma_flat_index_bound(sx as int, sy as int, sz as int, x, y, z);
            }
        }
        r
    }

    fn index(&self, x: usize, y: usize, z: usize) -> (i: usize)
        requires
            self.wf(),
            self.in_bounds(x as int, y as int, z as int),
        ensures
            i == flat_index(self.sx as int, self.sy as int, x as int, y as int, z as int),
            i < self.data.len(),
    {
        proof {
            lemma_flat_index_bound(
                self.sx as int,
                self.sy as int,
                self.sz as int,
                x as int,
                y as int,
                z as int,
            );
        }
        z * self.sy * self.sx + y * self.sx + x
    }

    /// Reads cell `(x, y, z)`.
    pub fn get(&self, x: usize, y: usize, z: usize) -> (v: u32)
        requires
            self.wf(),
            self.in_bounds(x as int, y as int, z as int),
        ensures
            v == self.at(x as int, y as int, z as int),
    {
        let i = self.index(x, y, z);
        self.data[i]
    }

    /// Writes cell `(x, y, z)` and leaves every other cell as it was.
    pub fn set(&mut self, x: usize, y: usize, z: usize, val: u32)
        requires
            old(self).wf(),
            old(self).in_bounds(x as int, y as int, z as int),
        ensures
            final(self).wf(),
            final(self).dim_x() == old(self).dim_x(),
            final(self).dim_y() == old(self).dim_y(),
            final(self).dim_z() == old(self).dim_z(),
            final(self).at(x as int, y as int, z as int) == val,
            forall|x2: int, y2: int, z2: int|
                old(self).in_bounds(x2, y2, z2) && (x2 != x || y2 != y || z2 != z)
                    ==> #[trigger] final(self).at(x2, y2, z2) == old(self).at(x2, y2, z2),
    {
        let i = self.index(x, y, z);
        self.data[i] = val;
        proof {
            assert forall|x2: int, y2: int, z2: int|
                old(self).in_bounds(x2, y2, z2) && (x2 != x || y2 != y || z2 != z) implies #[trigger] self.at(
                x2,
                y2,
                z2,
            ) == old(self).at(x2, y2, z2) by {
                lemma_flat_index_bound(self.sx as int, self.sy as int, self.sz as int, x2, y2, z2);
                if flat_index(self.sx as int, self.sy as int, x2, y2, z2) == i {
                    lemma_flat_index_injective(
                        self.sx as int,
                        self.sy as int,
                        x as int,
                        y as int,
                        z as int,
                        x2,
                        y2,
                        z2,
                    );
                }
            }
        }
    }
}

/// A maximal run of solid voxels in one column: the half-open interval
/// `[bottom, top)`.
#[derive(Clone, Copy, Debug, PartialEq, Eq, Structural)]
pub struct ColumnSpan {
    pub bottom: u32,
    pub top: u32,
}

/// Whether height `y` lies inside one of the spans.
pub open spec fn covers(spans: Seq<ColumnSpan>, y: int) -> bool {
    exists|i: int| 0 <= i < spans.len() && (#[trigger] spans[i]).bottom <= y < spans[i].top
}

/// The column of height `len` that a span list stands for: solid inside a
/// span, empty elsewhere.
pub open spec fn decode(spans: Seq<ColumnSpan>, len: nat) -> Seq<bool> {
    Seq::new(len, |y: int| covers(spans, y))
}

/// Spans are non-empty, lie inside the column, come in increasing order and
/// are separated by at least one empty voxel.
pub open spec fn spans_ordered(spans: Seq<ColumnSpan>, len: nat) -> bool {
    &&& forall|i: int| 0 <= i < spans.len() ==> (#[trigger] spans[i]).bottom < spans[i].top <= len
    &&& forall|i: int|
        0 <= i < spans.len() - 1 ==> (#[trigger] spans[i]).top < spans[i + 1].bottom
}

/// `spans` is the run-length form of `col`.
pub open spec fn encodes(spans: Seq<ColumnSpan>, col: Seq<bool>) -> bool {
    spans_ordered(spans, col.len()) && decode(spans, col.len()) == col
}

/// Number of solid voxels in a column.
pub open spec fn solid_count(col: Seq<bool>) -> int
    decreases col.len(),
{
    if col.len() == 0 {
        0
    } else {
        solid_count(col.drop_last()) + if col.last() {
            1int
        } else {
            0int
        }
    }
}

/// Total height of the spans of a list.
pub open spec fn span_volume(spans: Seq<ColumnSpan>) -> int
    decreases spans.len(),
{
    if spans.len() == 0 {
        0
    } else {
        span_volume(spans.drop_last()) + (spans.last().top - spans.last().bottom)
    }
}

/// The largest number of spans a column of height `sy` can have.
pub open spec fn max_runs(sy: int) -> int {
    (sy + 1) / 2
}

/// Appending a span adds exactly its interval to what the list covers.
pub proof fn lemma_covers_push(spans: Seq<ColumnSpan>, s: ColumnSpan, y: int)
    ensures
        covers(spans.push(s), y) <==> covers(spans, y) || s.bottom <= y < s.top,
{
    let ext = spans.push(s);
    if covers(spans, y) {
        let i = choose|i: int| 0 <= i < spans.len() && (#[trigger] spans[i]).bottom <= y < spans[i].top;
        assert(ext[i] == spans[i]);
    }
    if s.bottom <= y < s.top {
        assert(ext[spans.len() as int] == s);
    }
    if covers(ext, y) {
        let i = choose|i: int| 0 <= i < ext.len() && (#[trigger] ext[i]).bottom <= y < ext[i].top;
        if i < spans.len() {
            assert(ext[i] == spans[i]);
        }
    }
}

/// Spans further up lie strictly above spans further down.
pub proof fn lemma_spans_increase(spans: Seq<ColumnSpan>, len: nat, i: int, j: int)
    requires
        spans_ordered(spans, len),
        0 <= i < j < spans.len(),
    ensures
        spans[i].top < spans[j].bottom,
    decreases j - i,
{
    if i + 1 < j {
        lemma_spans_increase(spans, len, i, j - 1);
        assert(spans[j - 1].bottom < spans[j - 1].top);
        assert(spans[j - 1].top < spans[j - 1 + 1].bottom);
    }
}

/// The span that covers a height is found by no other span.
proof fn lemma_covering_span(spans: Seq<ColumnSpan>, len: nat, i: int, y: int)
    requires
        spans_ordered(spans, len),
        0 <= i < spans.len(),
    ensures
        y == spans[i].bottom - 1 || y == spans[i].top ==> !covers(spans, y),
        spans[i].bottom <= y < spans[i].top ==> covers(spans, y),
{
    if covers(spans, y) && (y == spans[i].bottom - 1 || y == spans[i].top) {
        let j = choose|j: int| 0 <= j < spans.len() && (#[trigger] spans[j]).bottom <= y < spans[j].top;
        if j < i {
            lemma_spans_increase(spans, len, j, i);
        } else if i < j {
            lemma_spans_increase(spans, len, i, j);
        }
    }
}

/// Every span of an encoding is a maximal run of its column: solid from
/// bottom to top, with an empty voxel or the column's end on either side.
pub proof fn lemma_spans_maximal(spans: Seq<ColumnSpan>, col: Seq<bool>, i: int)
    requires
        encodes(spans, col),
        0 <= i < spans.len(),
    ensures
        forall|y: int| spans[i].bottom <= y < spans[i].top ==> col[y],
        spans[i].bottom > 0 ==> !col[spans[i].bottom - 1],
        spans[i].top < col.len() ==> !col[spans[i].top as int],
{
    let decoded = decode(spans, col.len());
    assert forall|y: int| spans[i].bottom <= y < spans[i].top implies col[y] by {
        lemma_covering_span(spans, col.len(), i, y);
        assert(decoded[y] == covers(spans, y));
    }
    if spans[i].bottom > 0 {
        let y = spans[i].bottom - 1;
        lemma_covering_span(spans, col.len(), i, y);
        assert(decoded[y] == covers(spans, y));
    }
    if spans[i].top < col.len() {
        let y = spans[i].top as int;
        lemma_covering_span(spans, col.len(), i, y);
        assert(decoded[y] == covers(spans, y));
    }
}

/// Every span of one encoding of a column is a span of any other.
proof fn lemma_span_shared(a: Seq<ColumnSpan>, b: Seq<ColumnSpan>, col: Seq<bool>, i: int) -> (j: int)
    requires
        encodes(a, col),
        encodes(b, col),
        0 <= i < a.len(),
    ensures
        0 <= j < b.len(),
        b[j] == a[i],
{
    let y = a[i].bottom as int;
    lemma_spans_maximal(a, col, i);
    assert(decode(b, col.len())[y] == covers(b, y));
    let j = choose|j: int| 0 <= j < b.len() && (#[trigger] b[j]).bottom <= y < b[j].top;
    lemma_spans_maximal(b, col, j);
    if b[j].bottom < a[i].bottom {
        assert(col[a[i].bottom - 1]);
    }
    if b[j].top < a[i].top {
        assert(col[b[j].top as int]);
    }
    if a[i].top < b[j].top {
        assert(col[a[i].top as int]);
    }
    j
}

/// Two encodings of a column agree on their first `n` spans.
proof fn lemma_encodings_agree(a: Seq<ColumnSpan>, b: Seq<ColumnSpan>, col: Seq<bool>, n: int)
    requires
        encodes(a, col),
        encodes(b, col),
        0 <= n <= a.len(),
    ensures
        n <= b.len(),
        forall|i: int| 0 <= i < n ==> a[i] == b[i],
    decreases n,
{
    if n > 0 {
        lemma_encodings_agree(a, b, col, n - 1);
        let i = n - 1;
        let j = lemma_span_shared(a, b, col, i);
        if j < i {
            lemma_spans_increase(a, col.len(), j, i);
        } else if i < j {
            let k = lemma_span_shared(b, a, col, i);
            if k < i {
                lemma_spans_increase(b, col.len(), k, i);
            } else if i < k {
                lemma_spans_increase(a, col.len(), i, k);
                lemma_spans_increase(b, col.len(), i, j);
            }
        }
    }
}

/// A column has one encoding only.
pub proof fn lemma_encoding_unique(a: Seq<ColumnSpan>, b: Seq<ColumnSpan>, col: Seq<bool>)
    requires
        encodes(a, col),
        encodes(b, col),
    ensures
        a == b,
{
    lemma_encodings_agree(a, b, col, a.len() as int);
    lemma_encodings_agree(b, a, col, b.len() as int);
    assert(a =~= b);
}

/// Round trip: decoding the encoding of a column gives the column back.
pub proof fn lemma_round_trip(spans: Seq<ColumnSpan>, col: Seq<bool>)
    requires
        encodes(spans, col),
    ensures
        decode(spans, col.len()) == col,
{
}

/// Span `i` of an ordered list ends at height `2 i + 1` or above.
proof fn lemma_span_height(spans: Seq<ColumnSpan>, len: nat, i: int)
    requires
        spans_ordered(spans, len),
        0 <= i < spans.len(),
    ensures
        2 * i + 1 <= spans[i].top,
    decreases i,
{
    if i > 0 {
        lemma_span_height(spans, len, i - 1);
        assert(spans[i - 1].top < spans[i - 1 + 1].bottom);
    }
}

/// A column of height `len` has at most `(len + 1) / 2` spans.
pub proof fn lemma_span_count_bound(spans: Seq<ColumnSpan>, len: nat)
    requires
        spans_ordered(spans, len),
    ensures
        spans.len() <= max_runs(len as int),
{
    if spans.len() > 0 {
        lemma_span_height(spans, len, spans.len() - 1);
    }
}

/// Number of voxels of a span below height `h`.
pub open spec fn clipped_height(span: ColumnSpan, h: int) -> int {
    if h <= span.bottom {
        0
    } else if h < span.top {
        h - span.bottom
    } else {
        span.top - span.bottom
    }
}

/// Number of voxels of the spans below height `h`.
pub open spec fn volume_below(spans: Seq<ColumnSpan>, h: int) -> int
    decreases spans.len(),
{
    if spans.len() == 0 {
        0
    } else {
        volume_below(spans.drop_last(), h) + clipped_height(spans.last(), h)
    }
}

/// Raising the height by one adds a voxel exactly where a span covers the
/// old height.
proof fn lemma_volume_step(spans: Seq<ColumnSpan>, len: nat, h: int)
    requires
        spans_ordered(spans, len),
    ensures
        volume_below(spans, h + 1) == volume_below(spans, h) + if covers(spans, h) {
            1int
        } else {
            0int
        },
    decreases spans.len(),
{
    if spans.len() > 0 {
        let head = spans.drop_last();
        let last = spans.last();
        assert(spans =~= head.push(last));
        lemma_volume_step(head, len, h);
        lemma_covers_push(head, last, h);
        if covers(head, h) && last.bottom <= h < last.top {
            let j = choose|j: int| 0 <= j < head.len() && (#[trigger] head[j]).bottom <= h < head[j].top;
            lemma_spans_increase(spans, len, j, spans.len() - 1);
        }
    }
}

/// Below height zero there is nothing, and below the column's height
/// there is everything.
proof fn lemma_volume_ends(spans: Seq<ColumnSpan>, len: nat)
    requires
        spans_ordered(spans, len),
    ensures
        volume_below(spans, 0) == 0,
        volume_below(spans, len as int) == span_volume(spans),
    decreases spans.len(),
{
    if spans.len() > 0 {
        lemma_volume_ends(spans.drop_last(), len);
    }
}

/// The solid voxels below height `h` are those of the spans below `h`.
proof fn lemma_count_below(spans: Seq<ColumnSpan>, len: nat, h: int)
    requires
        spans_ordered(spans, len),
        0 <= h,
    ensures
        solid_count(decode(spans, h as nat)) == volume_below(spans, h),
    decreases h,
{
    if h == 0 {
        lemma_volume_ends(spans, len);
    } else {
        lemma_count_below(spans, len, h - 1);
        lemma_volume_step(spans, len, h - 1);
        assert(decode(spans, h as nat).drop_last() =~= decode(spans, (h - 1) as nat));
    }
}

/// Occupancy conservation: the heights of the spans of a column add up to
/// the number of its solid voxels.
pub proof fn lemma_occupancy_conserved(spans: Seq<ColumnSpan>, col: Seq<bool>)
    requires
        encodes(spans, col),
    ensures
        span_volume(spans) == solid_count(col),
{
    lemma_count_below(spans, col.len(), col.len() as int);
    lemma_volume_ends(spans, col.len());
}

impl Array3D {
    /// Encodes column `(x, z)` into its spans, scanning from the bottom; a
    /// run that reaches the top of the column is closed at its height.
    pub fn column_spans(&self, x: usize, z: usize) -> (runs: Vec<ColumnSpan>)
        requires
            self.wf(),
            0 <= x < self.dim_x(),
            0 <= z < self.dim_z(),
            self.dim_y() <= u32::MAX,
        ensures
            encodes(runs@, self.column(x as int, z as int)),
            runs.len() <= max_runs(self.dim_y()),
            span_volume(runs@) == solid_count(self.column(x as int, z as int)),
    {
        let ghost col = self.column(x as int, z as int);
        let mut runs: Vec<ColumnSpan> = Vec::new();
        let mut start: Option<u32> = None;
        let mut y: usize = 0;
        while y < self.sy
            invariant
                self.wf(),
                0 <= x < self.dim_x(),
                0 <= z < self.dim_z(),
                self.dim_y() <= u32::MAX,
                col == self.column(x as int, z as int),
                0 <= y <= self.sy,
                start matches Some(b) ==> b < y && forall|j: int| b <= j < y ==> col[j],
                forall|i: int|
                    0 <= i < runs.len() ==> (#[trigger] runs[i]).bottom < runs[i].top < open_limit(
                        start,
                        y as int,
                    ),
                forall|i: int| 0 <= i < runs.len() - 1 ==> (#[trigger] runs[i]).top < runs[i + 1].bottom,
                forall|j: int| 0 <= j < open_limit(start, y as int) ==> (col[j] <==> covers(runs@, j)),
            decreases self.sy - y,
        {
            let ghost before = runs@;
            if self.get(x, y, z) == 0 {
                if let Some(bot) = start {
                    let span = ColumnSpan { bottom: bot, top: to_u32(y) };
                    runs.push(span);
                    start = None;
                    proof {
                        assert forall|j: int| 0 <= j < y + 1 implies (col[j] <==> covers(
                            runs@,
                            j,
                        )) by {
                            lemma_covers_push(before, span, j);
                        }
                    }
                } else {
                    proof {
                        assert(!covers(runs@, y as int));
                    }
                }
            } else if start.is_none() {
                start = Some(to_u32(y));
            }
            y += 1;
        }
        if let Some(bot) = start {
            let ghost before = runs@;
            let span = ColumnSpan { bottom: bot, top: to_u32(self.sy) };
            runs.push(span);
            proof {
                assert forall|j: int| 0 <= j < self.sy implies (col[j] <==> covers(runs@, j)) by {
                    lemma_covers_push(before, span, j);
                }
            }
        }
        proof {
            assert(decode(runs@, col.len()) =~= col);
            lemma_span_count_bound(runs@, col.len());
            lemma_occupancy_conserved(runs@, col);
        }
        runs
    }
}

/// The first height that the closed spans say nothing about: the bottom of
/// the open run, or the scan position when no run is open.
spec fn open_limit(start: Option<u32>, y: int) -> int {
    match start {
        Some(b) => b as int,
        None => y,
    }
}

/// The column of height `len` that the spans stand for.
pub fn decode_spans(spans: &Vec<ColumnSpan>, len: usize) -> (col: Vec<bool>)
    ensures
        col@ == decode(spans@, len as nat),
{
    let mut col = vec![false; len];
    let mut i: usize = 0;
    while i < spans.len()
        invariant
            0 <= i <= spans.len(),
            col.len() == len,
            forall|y: int| 0 <= y < len ==> col[y] == covers(spans@.take(i as int), y),
        decreases spans.len() - i,
    {
        let span = spans[i];
        let ghost done = spans@.take(i as int);
        let ghost before = col@;
        proof {
            assert(spans@.take(i + 1) =~= done.push(span));
        }
        let mut y: usize = span.bottom as usize;
        while y < len && y < span.top as usize
            invariant
                col.len() == len == before.len(),
                span.bottom <= y,
                forall|k: int|
                    0 <= k < len ==> col[k] == (before[k] || (span.bottom <= k < y && k < span.top)),
            decreases len - y,
        {
            col[y] = true;
            y += 1;
        }
        proof {
            assert forall|k: int| 0 <= k < len implies col[k] == covers(spans@.take(i + 1), k) by {
                lemma_covers_push(done, span, k);
                assert(before[k] == covers(done, k));
            }
        }
        i += 1;
    }
    proof {
        assert(spans@.take(i as int) =~= spans@);
        assert(col@ =~= decode(spans@, len as nat));
    }
    col
}

/// A dense two-dimensional grid of cells.
pub struct Array2D {
    sx: usize,
    sy: usize,
    data: Vec<u32>,
}

impl Array2D {
    /// The storage holds exactly one value per cell.
    pub closed spec fn wf(&self) -> bool {
        self.data.len() == self.sx * self.sy
    }

    pub closed spec fn dim_x(&self) -> int {
        self.sx as int
    }

    pub closed spec fn dim_y(&self) -> int {
        self.sy as int
    }

    pub open spec fn in_bounds(&self, x: int, y: int) -> bool {
        0 <= x < self.dim_x() && 0 <= y < self.dim_y()
    }

    /// The value of cell `(x, y)`.
    pub closed spec fn at(&self, x: int, y: int) -> u32 {
        self.data@[y * self.sx + x]
    }

    /// The flat storage, row by row.
    pub closed spec fn cells(&self) -> Seq<u32> {
        self.data@
    }

    /// A grid of the given size with every cell set to `init`.
    pub fn new(init: u32, sx: usize, sy: usize) -> (r: Self)
        requires
            sx * sy <= usize::MAX,
        ensures
            r.wf(),
            r.dim_x() == sx,
            r.dim_y() == sy,
            r.cells().len() == sx * sy,
            forall|x: int, y: int| r.in_bounds(x, y) ==> #[trigger] r.at(x, y) == init,
    {
        let data = vec![init; sx * sy];
        let r = Self { sx, sy, data };
        proof {
            assert forall|x: int, y: int| r.in_bounds(x, y) implies #[trigger] r.at(x, y) == init by {
                lemma_flat_index_bound(sx as int, sy as int, 1, x, y, 0);
            }
        }
        r
    }

    /// Writes cell `(x, y)` and leaves every other cell as it was.
    pub fn set(&mut self, x: usize, y: usize, val: u32)
        requires
            old(self).wf(),
            old(self).in_bounds(x as int, y as int),
        ensures
            final(self).wf(),
            final(self).dim_x() == old(self).dim_x(),
            final(self).dim_y() == old(self).dim_y(),
            final(self).at(x as int, y as int) == val,
            forall|x2: int, y2: int|
                old(self).in_bounds(x2, y2) && (x2 != x || y2 != y) ==> #[trigger] final(self).at(x2, y2)
                    == old(self).at(x2, y2),
    {
        proof {
            lemma_flat_index_bound(self.sx as int, self.sy as int, 1, x as int, y as int, 0);
        }
        let i = y * self.sx + x;
        self.data[i] = val;
        proof {
            assert forall|x2: int, y2: int|
                old(self).in_bounds(x2, y2) && (x2 != x || y2 != y) implies #[trigger] self.at(x2, y2)
                == old(self).at(x2, y2) by {
                lemma_flat_index_bound(self.sx as int, self.sy as int, 1, x2, y2, 0);
                if y2 * self.sx + x2 == i {
                    lemma_flat_index_injective(
                        self.sx as int,
                        self.sy as int,
                        x as int,
                        y as int,
                        0,
                        x2,
                        y2,
                        0,
                    );
                }
            }
        }
    }
}

/// The spans that the two grids hold for column `(x, z)`: the count from
/// `sizes`, and run `i` from rows `2 i` and `2 i + 1` of `spans`.
spec fn stored_spans(sizes: Array2D, spans: Array3D, x: int, z: int) -> Seq<ColumnSpan> {
    Seq::new(
        sizes.at(x, z) as nat,
        |i: int| ColumnSpan { bottom: spans.at(x, 2 * i, z), top: spans.at(x, 2 * i + 1, z) },
    )
}

/// Every row of column `(x, z)` from `from` upwards holds zero.
spec fn rows_clear(spans: Array3D, x: int, z: int, from: int) -> bool {
    forall|k: int| from <= k < spans.dim_y() ==> #[trigger] spans.at(x, k, z) == 0
}

/// Column `(x, z)` holds the same count and rows in both pairs of grids.
spec fn column_same(
    sizes: Array2D,
    spans: Array3D,
    sizes2: Array2D,
    spans2: Array3D,
    x: int,
    z: int,
) -> bool {
    &&& sizes2.at(x, z) == sizes.at(x, z)
    &&& forall|k: int| 0 <= k < spans.dim_y() ==> #[trigger] spans2.at(x, k, z) == spans.at(x, k, z)
}

/// Writes the spans of one column into the two grids and touches no other
/// column.
fn store_column(sizes: &mut Array2D, spans: &mut Array3D, x: usize, z: usize, runs: &Vec<ColumnSpan>)
    requires
        old(sizes).wf(),
        old(spans).wf(),
        old(sizes).dim_x() == old(spans).dim_x(),
        old(sizes).dim_y() == old(spans).dim_z(),
        0 <= x < old(spans).dim_x(),
        0 <= z < old(spans).dim_z(),
        2 * runs.len() <= old(spans).dim_y() <= u32::MAX,
        rows_clear(*old(spans), x as int, z as int, 0),
    ensures
        final(sizes).wf(),
        final(spans).wf(),
        final(sizes).dim_x() == old(sizes).dim_x(),
        final(sizes).dim_y() == old(sizes).dim_y(),
        final(spans).dim_x() == old(spans).dim_x(),
        final(spans).dim_y() == old(spans).dim_y(),
        final(spans).dim_z() == old(spans).dim_z(),
        stored_spans(*final(sizes), *final(spans), x as int, z as int) == runs@,
        rows_clear(*final(spans), x as int, z as int, 2 * runs.len()),
        forall|x2: int, z2: int|
            0 <= x2 < old(spans).dim_x() && 0 <= z2 < old(spans).dim_z() && (x2 != x || z2 != z)
                ==> #[trigger] column_same(
                *old(sizes),
                *old(spans),
                *final(sizes),
                *final(spans),
                x2,
                z2,
            ),
{
    let n = runs.len();
    let mut i: usize = 0;
    while i < n
        invariant
            n == runs.len(),
            0 <= i <= n,
            spans.wf(),
            spans.dim_x() == old(spans).dim_x(),
            spans.dim_y() == old(spans).dim_y(),
            spans.dim_z() == old(spans).dim_z(),
            0 <= x < spans.dim_x(),
            0 <= z < spans.dim_z(),
            2 * n <= spans.dim_y() <= u32::MAX,
            forall|j: int|
                0 <= j < i ==> spans.at(x as int, 2 * j, z as int) == (#[trigger] runs[j]).bottom
                    && spans.at(x as int, 2 * j + 1, z as int) == runs[j].top,
            rows_clear(*spans, x as int, z as int, 2 * i),
            forall|x2: int, k: int, z2: int|
                old(spans).in_bounds(x2, k, z2) && (x2 != x || z2 != z) ==> #[trigger] spans.at(x2, k, z2)
                    == old(spans).at(x2, k, z2),
        decreases n - i,
    {
        let span = runs[i];
        spans.set(x, 2 * i, z, span.bottom);
        spans.set(x, 2 * i + 1, z, span.top);
        i += 1;
    }
    sizes.set(x, z, to_u32(n));
    proof {
        assert(stored_spans(*sizes, *spans, x as int, z as int) =~= runs@);
    }
}

/// The state of a world as contracts see it.
pub struct WorldView {
    pub sx: int,
    pub sy: int,
    pub sz: int,
    pub sizes: Seq<u32>,
    pub spans: Seq<u32>,
    pub needs_upload: bool,
}

impl WorldView {
    /// Rows of the span storage per column: two per run, for the largest
    /// number of runs a column can have.
    pub open spec fn span_rows(self) -> int {
        2 * max_runs(self.sy)
    }

    /// The sizes fit the maxima, both arrays have their full length, and
    /// no column has more runs than its height allows.
    pub open spec fn wf(self) -> bool {
        &&& 0 <= self.sx <= MAX_SIZE_X
        &&& 0 <= self.sy <= MAX_SIZE_Y
        &&& 0 <= self.sz <= MAX_SIZE_Z
        &&& self.sizes.len() == self.sx * self.sz
        &&& self.spans.len() == self.sx * self.span_rows() * self.sz
        &&& forall|x: int, z: int|
            0 <= x < self.sx && 0 <= z < self.sz ==> 0 <= #[trigger] self.run_count(x, z) <= max_runs(
                self.sy,
            )
    }

    /// Number of runs of column `(x, z)`.
    pub open spec fn run_count(self, x: int, z: int) -> int {
        self.sizes[z * self.sx + x] as int
    }

    /// Row `k` of column `(x, z)` in the span storage.
    pub open spec fn word(self, x: int, k: int, z: int) -> u32 {
        self.spans[flat_index(self.sx, self.span_rows(), x, k, z)]
    }

    /// The spans of column `(x, z)`, bottom to top.
    pub open spec fn column_spans(self, x: int, z: int) -> Seq<ColumnSpan> {
        Seq::new(
            self.run_count(x, z) as nat,
            |i: int| ColumnSpan { bottom: self.word(x, 2 * i, z), top: self.word(x, 2 * i + 1, z) },
        )
    }

    /// Column `(x, z)` is the run-length form of `col`, and the rows past
    /// its last run hold zero.
    pub open spec fn column_encodes(self, x: int, z: int, col: Seq<bool>) -> bool {
        &&& encodes(self.column_spans(x, z), col)
        &&& 0 <= self.run_count(x, z) <= max_runs(self.sy)
        &&& span_volume(self.column_spans(x, z)) == solid_count(col)
        &&& forall|k: int|
            2 * self.run_count(x, z) <= k < self.span_rows() ==> #[trigger] self.word(x, k, z) == 0
    }
}

/// The arrays of a world are no longer than those of the largest world.
pub proof fn lemma_array_lengths(w: WorldView)
    requires
        w.wf(),
    ensures
        0 <= w.span_rows() <= MAX_SIZE_Y,
        w.sizes.len() <= MAX_SIZE_X * MAX_SIZE_Z,
        w.spans.len() <= MAX_SIZE_X * MAX_SIZE_Y * MAX_SIZE_Z,
{
    let rows = w.span_rows();
    assert(w.sx * w.sz <= 256 * 256) by (nonlinear_arith)
        requires
            0 <= w.sx <= 256,
            0 <= w.sz <= 256,
    ;
    assert(w.sx * rows * w.sz <= 256 * 256 * 256) by (nonlinear_arith)
        requires
            0 <= w.sx <= 256,
            0 <= rows <= 256,
            0 <= w.sz <= 256,
    ;
}

/// The run-length form of a voxel volume, with the flag that says whether
/// it still has to be copied to the GPU.
pub struct World {
    sx: u32,
    sy: u32,
    sz: u32,
    /// For every column, the number of its spans.
    sizes: Vec<u32>,
    /// For every column, bottom and top of each span in turn.
    spans: Vec<u32>,
    needs_upload: bool,
}

impl View for World {
    type V = WorldView;

    closed spec fn view(&self) -> WorldView {
        WorldView {
            sx: self.sx as int,
            sy: self.sy as int,
            sz: self.sz as int,
            sizes: self.sizes@,
            spans: self.spans@,
            needs_upload: self.needs_upload,
        }
    }
}

impl World {
    /// Encodes every column of the volume. The result is marked as not yet
    /// uploaded.
    pub fn from_array(arr: &Array3D) -> (w: Self)
        requires
            arr.wf(),
            arr.dim_x() <= MAX_SIZE_X,
            arr.dim_y() <= MAX_SIZE_Y,
            arr.dim_z() <= MAX_SIZE_Z,
        ensures
            w@.wf(),
            w@.sx == arr.dim_x(),
            w@.sy == arr.dim_y(),
            w@.sz == arr.dim_z(),
            w@.needs_upload,
            forall|x: int, z: int|
                0 <= x < arr.dim_x() && 0 <= z < arr.dim_z() ==> #[trigger] w@.column_encodes(
                    x,
                    z,
                    arr.column(x, z),
                ),
    {
        let rows = arr.sy + arr.sy % 2;
        proof {
            assert(arr.sx * arr.sz <= 256 * 256) by (nonlinear_arith)
                requires
                    arr.sx <= 256,
                    arr.sz <= 256,
            ;
            assert(arr.sx * rows <= 256 * 256) by (nonlinear_arith)
                requires
                    arr.sx <= 256,
                    rows <= 256,
            ;
            assert(arr.sx * rows * arr.sz <= 256 * 256 * 256) by (nonlinear_arith)
                requires
                    arr.sx * rows <= 256 * 256,
                    arr.sz <= 256,
            ;
        }
        let mut sizes = Array2D::new(0, arr.sx, arr.sz);
        let mut spans = Array3D::new(0, arr.sx, rows, arr.sz);
        let mut x: usize = 0;
        while x < arr.sx
            invariant
                arr.wf(),
                arr.dim_y() <= MAX_SIZE_Y,
                rows == 2 * max_runs(arr.dim_y()),
                0 <= x <= arr.sx,
                sizes.wf(),
                spans.wf(),
                sizes.dim_x() == arr.sx,
                sizes.dim_y() == arr.sz,
                spans.dim_x() == arr.sx,
                spans.dim_y() == rows,
                spans.dim_z() == arr.sz,
                forall|x2: int, z2: int|
                    0 <= x2 < arr.sx && 0 <= z2 < arr.sz ==> #[trigger] column_ready(
                        *arr,
                        sizes,
                        spans,
                        x2,
                        z2,
                        x as int,
                        0,
                    ),
            decreases arr.sx - x,
        {
            let mut z: usize = 0;
            while z < arr.sz
                invariant
                    arr.wf(),
                    arr.dim_y() <= MAX_SIZE_Y,
                    rows == 2 * max_runs(arr.dim_y()),
                    0 <= x < arr.sx,
                    0 <= z <= arr.sz,
                    sizes.wf(),
                    spans.wf(),
                    sizes.dim_x() == arr.sx,
                    sizes.dim_y() == arr.sz,
                    spans.dim_x() == arr.sx,
                    spans.dim_y() == rows,
                    spans.dim_z() == arr.sz,
                    forall|x2: int, z2: int|
                        0 <= x2 < arr.sx && 0 <= z2 < arr.sz ==> #[trigger] column_ready(
                            *arr,
                            sizes,
                            spans,
                            x2,
                            z2,
                            x as int,
                            z as int,
                        ),
                decreases arr.sz - z,
            {
                let runs = arr.column_spans(x, z);
                let ghost sizes0 = sizes;
                let ghost spans0 = spans;
                let ghost next = z + 1;
                proof {
                    assert(column_ready(*arr, sizes, spans, x as int, z as int, x as int, z as int));
                }
                store_column(&mut sizes, &mut spans, x, z, &runs);
                proof {
                    assert forall|x2: int, z2: int|
                        0 <= x2 < arr.sx && 0 <= z2 < arr.sz implies #[trigger] column_ready(
                        *arr,
                        sizes,
                        spans,
                        x2,
                        z2,
                        x as int,
                        next,
                    ) by {
                        if x2 != x || z2 != z {
                            assert(column_ready(*arr, sizes0, spans0, x2, z2, x as int, z as int));
                            assert(column_same(sizes0, spans0, sizes, spans, x2, z2));
                            assert(stored_spans(sizes, spans, x2, z2) =~= stored_spans(
                                sizes0,
                                spans0,
                                x2,
                                z2,
                            ));
                        }
                    }
                }
                z += 1;
            }
            proof {
                let ghost after = x + 1;
                assert forall|x2: int, z2: int|
                    0 <= x2 < arr.sx && 0 <= z2 < arr.sz implies #[trigger] column_ready(
                    *arr,
                    sizes,
                    spans,
                    x2,
                    z2,
                    after,
                    0,
                ) by {
                    assert(column_ready(*arr, sizes, spans, x2, z2, x as int, z as int));
                }
            }
            x += 1;
        }
        let w = Self {
            sx: to_u32(arr.sx),
            sy: to_u32(arr.sy),
            sz: to_u32(arr.sz),
            spans: spans.data,
            sizes: sizes.data,
            needs_upload: true,
        };
        proof {
            assert(arr.sx * rows * arr.sz == arr.sx * (2 * max_runs(arr.sy as int)) * arr.sz);
            assert forall|x: int, z: int| 0 <= x < w@.sx && 0 <= z < w@.sz implies 0
                <= #[trigger] w@.run_count(x, z) <= max_runs(w@.sy) by {
                assert(column_ready(*arr, sizes, spans, x, z, arr.sx as int, 0));
            }
            assert forall|x: int, z: int|
                0 <= x < arr.dim_x() && 0 <= z < arr.dim_z() implies #[trigger] w@.column_encodes(
                x,
                z,
                arr.column(x, z),
            ) by {
                assert(column_ready(*arr, sizes, spans, x, z, arr.sx as int, 0));
                assert(w@.run_count(x, z) == sizes.at(x, z));
                assert forall|k: int| 0 <= k < rows implies #[trigger] w@.word(x, k, z) == spans.at(
                    x,
                    k,
                    z,
                ) by {}
                assert(w@.column_spans(x, z) =~= stored_spans(sizes, spans, x, z));
            }
        }
        w
    }

    pub fn size_x(&self) -> (r: u32)
        ensures
            r == self@.sx,
    {
        self.sx
    }

    pub fn size_y(&self) -> (r: u32)
        ensures
            r == self@.sy,
    {
        self.sy
    }

    pub fn size_z(&self) -> (r: u32)
        ensures
            r == self@.sz,
    {
        self.sz
    }

    /// The run count of every column, column `(x, z)` at `z * size_x + x`.
    pub fn sizes(&self) -> (r: &[u32])
        ensures
            r@ == self@.sizes,
    {
        self.sizes.as_slice()
    }

    /// The span storage: row `k` of column `(x, z)` at
    /// `(z * rows + k) * size_x + x`.
    pub fn spans(&self) -> (r: &[u32])
        ensures
            r@ == self@.spans,
    {
        self.spans.as_slice()
    }

    /// The spans of column `(x, z)`, bottom to top.
    pub fn column(&self, x: usize, z: usize) -> (r: Vec<ColumnSpan>)
        requires
            self@.wf(),
            x < self@.sx,
            z < self@.sz,
        ensures
            r@ == self@.column_spans(x as int, z as int),
    {
        let sx = self.sx as usize;
        let rows = (self.sy + self.sy % 2) as usize;
        proof {
            lemma_array_lengths(self@);
            lemma_flat_index_bound(sx as int, self.sz as int, 1, x as int, z as int, 0);
            assert(self@.run_count(x as int, z as int) <= max_runs(self@.sy));
        }
        let count = self.sizes[z * sx + x] as usize;
        let mut r: Vec<ColumnSpan> = Vec::new();
        let mut i: usize = 0;
        while i < count
            invariant
                self@.wf(),
                x < sx == self@.sx,
                z < self@.sz,
                rows == self@.span_rows(),
                count == self@.run_count(x as int, z as int) <= max_runs(self@.sy),
                0 <= i <= count,
                r.len() == i,
                forall|j: int| 0 <= j < i ==> r[j] == self@.column_spans(x as int, z as int)[j],
            decreases count - i,
        {
            proof {
                lemma_array_lengths(self@);
                lemma_flat_index_bound(sx as int, rows as int, self.sz as int, x as int, 2 * i, z as int);
                lemma_flat_index_bound(
                    sx as int,
                    rows as int,
                    self.sz as int,
                    x as int,
                    2 * i + 1,
                    z as int,
                );
            }
            let bottom = self.spans[z * rows * sx + (2 * i) * sx + x];
            let top = self.spans[z * rows * sx + (2 * i + 1) * sx + x];
            r.push(ColumnSpan { bottom, top });
            i += 1;
        }
        proof {
            assert(r@ =~= self@.column_spans(x as int, z as int));
        }
        r
    }

    /// Whether the arrays changed since they were last copied to the GPU.
    pub fn needs_upload(&self) -> (r: bool)
        ensures
            r == self@.needs_upload,
    {
        self.needs_upload
    }

    /// Acknowledges that the arrays were copied to the GPU.
    pub fn uploaded(&mut self)
        ensures
            final(self)@ == (WorldView { needs_upload: false, ..old(self)@ }),
    {
        self.needs_upload = false;
    }
}

/// What the encoder knows of column `(x, z)` when `(next_x, next_z)` is
/// the next column to encode: a column before it holds the run-length form
/// of the volume's column, any other holds zeros only.
spec fn column_ready(
    arr: Array3D,
    sizes: Array2D,
    spans: Array3D,
    x: int,
    z: int,
    next_x: int,
    next_z: int,
) -> bool {
    if x < next_x || (x == next_x && z < next_z) {
        &&& encodes(stored_spans(sizes, spans, x, z), arr.column(x, z))
        &&& sizes.at(x, z) <= max_runs(arr.dim_y())
        &&& span_volume(stored_spans(sizes, spans, x, z)) == solid_count(arr.column(x, z))
        &&& rows_clear(spans, x, z, 2 * sizes.at(x, z))
    } else {
        sizes.at(x, z) == 0 && rows_clear(spans, x, z, 0)
    }
}

/// The largest sphere radius the volume's arithmetic is proved for.
pub const MAX_RADIUS: u64 = 0x4000_0000;

/// Whether cell `(a, b, c)` belongs to the sphere around `(x, y, z)`: it
/// lies in the box from `center - radius` up to, but not including,
/// `center + radius`, and within `radius` of the center.
pub open spec fn in_sphere(x: int, y: int, z: int, radius: int, a: int, b: int, c: int) -> bool {
    &&& x - radius <= a < x + radius
    &&& y - radius <= b < y + radius
    &&& z - radius <= c < z + radius
    &&& (a - x) * (a - x) + (b - y) * (b - y) + (c - z) * (c - z) <= radius * radius
}

/// A sphere of the test scene.
pub struct Sphere {
    pub x: int,
    pub y: int,
    pub z: int,
    pub radius: int,
}

impl Sphere {
    pub open spec fn holds(self, a: int, b: int, c: int) -> bool {
        in_sphere(self.x, self.y, self.z, self.radius, a, b, c)
    }
}

/// The `i`-th sphere that a generator seeded with `seed` places in a
/// volume of the given size: four numbers are drawn for it, the radius
/// from `min` to `max`, then the center.
pub open spec fn sphere_at(seed: u64, i: int, min: u64, max: u64, sx: int, sy: int, sz: int) -> Sphere {
    Sphere {
        radius: ranged(output(nth_state(seed, (4 * i + 1) as nat)), min, max),
        x: ranged(output(nth_state(seed, (4 * i + 2) as nat)), 0, sx as u64),
        y: ranged(output(nth_state(seed, (4 * i + 3) as nat)), 0, sy as u64),
        z: ranged(output(nth_state(seed, (4 * i + 4) as nat)), 0, sz as u64),
    }
}

/// Whether one of the first `n` spheres holds cell `(a, b, c)`.
pub open spec fn in_spheres(
    seed: u64,
    n: int,
    min: u64,
    max: u64,
    sx: int,
    sy: int,
    sz: int,
    a: int,
    b: int,
    c: int,
) -> bool {
    exists|i: int| 0 <= i < n && (#[trigger] sphere_at(seed, i, min, max, sx, sy, sz)).holds(a, b, c)
}

/// Whether cell `(a, b, c)` of the test scene is solid: fifty spheres of
/// radius 3 to 24 and two single voxels.
pub open spec fn test_solid(sx: int, sy: int, sz: int, a: int, b: int, c: int) -> bool {
    ||| in_spheres(0xcafe_babe, 50, 3, 25, sx, sy, sz, a, b, c)
    ||| (a == 20 && b == 20 && c == sz / 2 - 3)
    ||| (a == sx / 2 && b == sy / 2 && c == sz / 2 - 3)
}

/// Column `(x, z)` of the test scene.
pub open spec fn test_column(sx: int, sy: int, sz: int, x: int, z: int) -> Seq<bool> {
    Seq::new(sy as nat, |y: int| test_solid(sx, sy, sz, x, y, z))
}

proof fn lemma_square_bound(off: int, radius: int)
    by (nonlinear_arith)
    requires
        -radius <= off <= radius,
        radius <= MAX_RADIUS,
    ensures
        0 <= off * off <= radius * radius <= 0x1000_0000_0000_0000,
{
}

impl Array3D {
    /// Sets every cell of the sphere around `(x, y, z)` to 1.
    pub fn add_sphere(&mut self, x: u64, y: u64, z: u64, radius: u64)
        requires
            old(self).wf(),
            x <= u32::MAX,
            y <= u32::MAX,
            z <= u32::MAX,
            radius <= MAX_RADIUS,
        ensures
            final(self).wf(),
            final(self).dim_x() == old(self).dim_x(),
            final(self).dim_y() == old(self).dim_y(),
            final(self).dim_z() == old(self).dim_z(),
            forall|a: int, b: int, c: int|
                old(self).in_bounds(a, b, c) ==> #[trigger] final(self).at(a, b, c) == if in_sphere(
                    x as int,
                    y as int,
                    z as int,
                    radius as int,
                    a,
                    b,
                    c,
                ) {
                    1
                } else {
                    old(self).at(a, b, c)
                },
    {
        let x_min = x.saturating_sub(radius);
        let y_min = y.saturating_sub(radius);
        let z_min = z.saturating_sub(radius);
        let x_max = if x + radius < self.sx as u64 {
            x + radius
        } else {
            self.sx as u64
        };
        let y_max = if y + radius < self.sy as u64 {
            y + radius
        } else {
            self.sy as u64
        };
        let z_max = if z + radius < self.sz as u64 {
            z + radius
        } else {
            self.sz as u64
        };
        proof {
            lemma_square_bound(radius as int, radius as int);
        }
        let rad_sq = (radius as i64) * (radius as i64);
        let mut dx = x_min;
        while dx < x_max
            invariant
                self.wf(),
                self.dim_x() == old(self).dim_x(),
                self.dim_y() == old(self).dim_y(),
                self.dim_z() == old(self).dim_z(),
                x <= u32::MAX,
                y <= u32::MAX,
                z <= u32::MAX,
                radius <= MAX_RADIUS,
                rad_sq == radius * radius,
                x_min == if x >= radius { x - radius } else { 0 },
                y_min == if y >= radius { y - radius } else { 0 },
                z_min == if z >= radius { z - radius } else { 0 },
                x_max == if x + radius < self.sx { x + radius } else { self.sx as int },
                y_max == if y + radius < self.sy { y + radius } else { self.sy as int },
                z_max == if z + radius < self.sz { z + radius } else { self.sz as int },
                x_min <= dx,
                forall|a: int, b: int, c: int|
                    old(self).in_bounds(a, b, c) ==> #[trigger] self.at(a, b, c) == if in_sphere(
                        x as int,
                        y as int,
                        z as int,
                        radius as int,
                        a,
                        b,
                        c,
                    ) && a < dx {
                        1
                    } else {
                        old(self).at(a, b, c)
                    },
            decreases x_max - dx,
        {
            let mut dy = y_min;
            while dy < y_max
                invariant
                    self.wf(),
                    self.dim_x() == old(self).dim_x(),
                    self.dim_y() == old(self).dim_y(),
                    self.dim_z() == old(self).dim_z(),
                    x <= u32::MAX,
                    y <= u32::MAX,
                    z <= u32::MAX,
                    radius <= MAX_RADIUS,
                    rad_sq == radius * radius,
                    y_min == if y >= radius { y - radius } else { 0 },
                    z_min == if z >= radius { z - radius } else { 0 },
                    x_max == if x + radius < self.sx { x + radius } else { self.sx as int },
                    y_max == if y + radius < self.sy { y + radius } else { self.sy as int },
                    z_max == if z + radius < self.sz { z + radius } else { self.sz as int },
                    x - radius <= dx < x_max,
                    y_min <= dy,
                    forall|a: int, b: int, c: int|
                        old(self).in_bounds(a, b, c) ==> #[trigger] self.at(a, b, c) == if in_sphere(
                            x as int,
                            y as int,
                            z as int,
                            radius as int,
                            a,
                            b,
                            c,
                        ) && (a < dx || (a == dx && b < dy)) {
                            1
                        } else {
                            old(self).at(a, b, c)
                        },
                decreases y_max - dy,
            {
                let mut dz = z_min;
                while dz < z_max
                    invariant
                        self.wf(),
                        self.dim_x() == old(self).dim_x(),
                        self.dim_y() == old(self).dim_y(),
                        self.dim_z() == old(self).dim_z(),
                        x <= u32::MAX,
                        y <= u32::MAX,
                        z <= u32::MAX,
                        radius <= MAX_RADIUS,
                        rad_sq == radius * radius,
                        z_min == if z >= radius { z - radius } else { 0 },
                        x_max == if x + radius < self.sx { x + radius } else { self.sx as int },
                        y_max == if y + radius < self.sy { y + radius } else { self.sy as int },
                        z_max == if z + radius < self.sz { z + radius } else { self.sz as int },
                        x - radius <= dx < x_max,
                        y - radius <= dy < y_max,
                        z_min <= dz,
                        forall|a: int, b: int, c: int|
                            old(self).in_bounds(a, b, c) ==> #[trigger] self.at(a, b, c)
                                == if in_sphere(
                                x as int,
                                y as int,
                                z as int,
                                radius as int,
                                a,
                                b,
                                c,
                            ) && (a < dx || (a == dx && (b < dy || (b == dy && c < dz)))) {
                                1
                            } else {
                                old(self).at(a, b, c)
                            },
                    decreases z_max - dz,
                {
                    let x_off = (dx as i64) - (x as i64);
                    let y_off = (dy as i64) - (y as i64);
                    let z_off = (dz as i64) - (z as i64);
                    proof {
                        lemma_square_bound(x_off as int, radius as int);
                        lemma_square_bound(y_off as int, radius as int);
                        lemma_square_bound(z_off as int, radius as int);
                    }
                    if x_off * x_off + y_off * y_off + z_off * z_off <= rad_sq {
                        self.set(dx as usize, dy as usize, dz as usize, 1);
                    }
                    dz += 1;
                }
                dy += 1;
            }
            dx += 1;
        }
    }

    /// Adds `num_spheres` spheres whose radii and centers are drawn from a
    /// generator seeded with `seed`.
    pub fn fill_with_spheres(&mut self, seed: u64, num_spheres: usize, sz_range: Range<u64>)
        requires
            old(self).wf(),
            1 <= old(self).dim_x() <= u32::MAX,
            1 <= old(self).dim_y() <= u32::MAX,
            1 <= old(self).dim_z() <= u32::MAX,
            sz_range.start < sz_range.end <= MAX_RADIUS,
        ensures
            final(self).wf(),
            final(self).dim_x() == old(self).dim_x(),
            final(self).dim_y() == old(self).dim_y(),
            final(self).dim_z() == old(self).dim_z(),
            forall|a: int, b: int, c: int|
                old(self).in_bounds(a, b, c) ==> #[trigger] final(self).at(a, b, c) == if in_spheres(
                    seed,
                    num_spheres as int,
                    sz_range.start,
                    sz_range.end,
                    old(self).dim_x(),
                    old(self).dim_y(),
                    old(self).dim_z(),
                    a,
                    b,
                    c,
                ) {
                    1
                } else {
                    old(self).at(a, b, c)
                },
    {
        let mut rng = Wyhash64::from_seed(seed);
        let min = sz_range.start;
        let max = sz_range.end;
        let ghost sx = self.dim_x();
        let ghost sy = self.dim_y();
        let ghost sz = self.dim_z();
        let mut k: usize = 0;
        while k < num_spheres
            invariant
                self.wf(),
                self.dim_x() == sx == old(self).dim_x(),
                self.dim_y() == sy == old(self).dim_y(),
                self.dim_z() == sz == old(self).dim_z(),
                1 <= sx <= u32::MAX,
                1 <= sy <= u32::MAX,
                1 <= sz <= u32::MAX,
                min < max <= MAX_RADIUS,
                0 <= k <= num_spheres,
                rng.state() == nth_state(seed, (4 * k) as nat),
                forall|a: int, b: int, c: int|
                    old(self).in_bounds(a, b, c) ==> #[trigger] self.at(a, b, c) == if in_spheres(
                        seed,
                        k as int,
                        min,
                        max,
                        sx,
                        sy,
                        sz,
                        a,
                        b,
                        c,
                    ) {
                        1
                    } else {
                        old(self).at(a, b, c)
                    },
            decreases num_spheres - k,
        {
            let ghost before = *self;
            proof {
                assert(nth_state(seed, (4 * k + 1) as nat) == crate::rand::next_state(
                    nth_state(seed, (4 * k) as nat),
                ));
                assert(nth_state(seed, (4 * k + 2) as nat) == crate::rand::next_state(
                    nth_state(seed, (4 * k + 1) as nat),
                ));
                assert(nth_state(seed, (4 * k + 3) as nat) == crate::rand::next_state(
                    nth_state(seed, (4 * k + 2) as nat),
                ));
                assert(nth_state(seed, (4 * k + 4) as nat) == crate::rand::next_state(
                    nth_state(seed, (4 * k + 3) as nat),
                ));
            }
            let r = rng.gen_in_range(min..max);
            let x = rng.gen_in_range(0..self.sx as u64);
            let y = rng.gen_in_range(0..self.sy as u64);
            let z = rng.gen_in_range(0..self.sz as u64);
            self.add_sphere(x, y, z, r);
            proof {
                let next = k + 1;
                let s = sphere_at(seed, k as int, min, max, sx, sy, sz);
                assert(s.x == x && s.y == y && s.z == z && s.radius == r);
                assert forall|a: int, b: int, c: int| old(self).in_bounds(a, b, c) implies #[trigger] self.at(
                    a,
                    b,
                    c,
                ) == if in_spheres(seed, next, min, max, sx, sy, sz, a, b, c) {
                    1
                } else {
                    old(self).at(a, b, c)
                } by {
                    if s.holds(a, b, c) {
                        assert(sphere_at(seed, k as int, min, max, sx, sy, sz).holds(a, b, c));
                    }
                    if in_spheres(seed, k as int, min, max, sx, sy, sz, a, b, c) {
                        let i = choose|i: int|
                            0 <= i < k && (#[trigger] sphere_at(seed, i, min, max, sx, sy, sz)).holds(
                                a,
                                b,
                                c,
                            );
                        assert(sphere_at(seed, i, min, max, sx, sy, sz).holds(a, b, c));
                    }
                    assert(before.at(a, b, c) == if in_spheres(
                        seed,
                        k as int,
                        min,
                        max,
                        sx,
                        sy,
                        sz,
                        a,
                        b,
                        c,
                    ) {
                        1
                    } else {
                        old(self).at(a, b, c)
                    });
                }
            }
            k += 1;
        }
    }

    /// Fills the volume with the test scene.
    pub fn fill_test_data(&mut self)
        requires
            old(self).wf(),
            21 <= old(self).dim_x() <= u32::MAX,
            21 <= old(self).dim_y() <= u32::MAX,
            6 <= old(self).dim_z() <= u32::MAX,
        ensures
            final(self).wf(),
            final(self).dim_x() == old(self).dim_x(),
            final(self).dim_y() == old(self).dim_y(),
            final(self).dim_z() == old(self).dim_z(),
            forall|a: int, b: int, c: int|
                old(self).in_bounds(a, b, c) ==> #[trigger] final(self).at(a, b, c) == if test_solid(
                    old(self).dim_x(),
                    old(self).dim_y(),
                    old(self).dim_z(),
                    a,
                    b,
                    c,
                ) {
                    1
                } else {
                    old(self).at(a, b, c)
                },
    {
        self.fill_with_spheres(0xcafe_babe, 50, 3..25);
        self.set(20, 20, self.sz / 2 - 3, 1);
        self.set(self.sx / 2, self.sy / 2, self.sz / 2 - 3, 1);
    }
}

impl World {
    /// The world of the test scene in a volume of the given size.
    pub fn new(sx: usize, sy: usize, sz: usize) -> (w: Self)
        requires
            21 <= sx <= MAX_SIZE_X,
            21 <= sy <= MAX_SIZE_Y,
            6 <= sz <= MAX_SIZE_Z,
        ensures
            w@.wf(),
            w@.sx == sx,
            w@.sy == sy,
            w@.sz == sz,
            w@.needs_upload,
            forall|x: int, z: int|
                0 <= x < sx && 0 <= z < sz ==> #[trigger] w@.column_encodes(
                    x,
                    z,
                    test_column(sx as int, sy as int, sz as int, x, z),
                ),
    {
        proof {
            assert(sx * sy <= 256 * 256) by (nonlinear_arith)
                requires
                    sx <= 256,
                    sy <= 256,
            ;
            assert(sx * sy * sz <= 256 * 256 * 256) by (nonlinear_arith)
                requires
                    sx * sy <= 256 * 256,
                    sz <= 256,
            ;
        }
        let mut arr = Array3D::new(0, sx, sy, sz);
        arr.fill_test_data();
        let w = Self::from_array(&arr);
        proof {
            assert forall|x: int, z: int| 0 <= x < sx && 0 <= z < sz implies #[trigger] w@.column_encodes(
                x,
                z,
                test_column(sx as int, sy as int, sz as int, x, z),
            ) by {
                assert(w@.column_encodes(x, z, arr.column(x, z)));
                assert(arr.column(x, z) =~= test_column(sx as int, sy as int, sz as int, x, z));
            }
        }
        w
    }
}

} // verus!
