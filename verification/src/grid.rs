//! Grid geometry and the two-level (simple) or two-letter plus subgrid
//! (dense) target navigator.
use vstd::prelude::*;
use crate::keys::LogicalKey;
use vstd::string::StringExecFns;
use vstd::string::StrSliceExecFns;
use vstd::arithmetic::div_mod::*;
use vstd::arithmetic::mul::*;

verus! {

#[derive(Debug, Clone, Copy, PartialEq, Eq, Structural)]
pub struct Rect {
    pub x: i64,
    pub y: i64,
    pub width: i64,
    pub height: i64,
}

/// Rust's truncating division by two.
pub open spec fn half(w: int) -> int {
    if w >= 0 { w / 2 } else { -((-w) / 2) }
}

/// A cell of a partition: `index` of `count` equal slices of `total`
/// starting at `start`; the last slice absorbs the remainder.
pub open spec fn spec_partition(start: int, total: int, index: int, count: int) -> (int, int) {
    if count <= 0 {
        (start, total)
    } else {
        let base = total / count;
        let rem = total % count;
        (start + base * index, if index == count - 1 { base + rem } else { base })
    }
}

pub open spec fn fits_i64(v: int) -> bool {
    i64::MIN <= v <= i64::MAX
}

impl Rect {
    /// A screen rect: non-negative size, with its far edges representable.
    pub open spec fn screen(self) -> bool {
        0 <= self.width && self.x + self.width <= i64::MAX
            && 0 <= self.height && self.y + self.height <= i64::MAX
    }

    pub open spec fn spec_center(self) -> (int, int) {
        (self.x + half(self.width as int), self.y + half(self.height as int))
    }

    pub open spec fn spec_contains(self, x: int, y: int) -> bool {
        x >= self.x && y >= self.y && x < self.x + self.width && y < self.y + self.height
    }

    pub open spec fn spec_subcell(self, row: int, col: int, rows: int, cols: int) -> (int, int, int, int) {
        let (x, w) = spec_partition(self.x as int, self.width as int, col, cols);
        let (y, h) = spec_partition(self.y as int, self.height as int, row, rows);
        (x, y, w, h)
    }

    pub open spec fn subcell_fits(self, row: int, col: int, rows: int, cols: int) -> bool {
        let (x, y, w, h) = self.spec_subcell(row, col, rows, cols);
        fits_i64(x) && fits_i64(y) && fits_i64(w) && fits_i64(h)
    }

    pub open spec fn as_tuple(self) -> (int, int, int, int) {
        (self.x as int, self.y as int, self.width as int, self.height as int)
    }

    pub fn new(x: i64, y: i64, width: i64, height: i64) -> (r: Self)
        ensures
            r == (Rect { x, y, width, height }),
    {
        Self { x, y, width, height }
    }

    pub fn center(&self) -> (c: (i64, i64))
        requires
            fits_i64(self.spec_center().0),
            fits_i64(self.spec_center().1),
        ensures
            c.0 == self.spec_center().0,
            c.1 == self.spec_center().1,
    {
        (self.x + self.width / 2, self.y + self.height / 2)
    }

    pub fn contains(&self, x: i64, y: i64) -> (b: bool)
        ensures
            b == self.spec_contains(x as int, y as int),
    {
        x >= self.x && y >= self.y && (x as i128) < (self.x as i128) + (self.width as i128)
            && (y as i128) < (self.y as i128) + (self.height as i128)
    }

    /// Splits the rect into `total_rows` x `total_cols` cells. The last row and
    /// column absorb the division remainder so cells tile the rect exactly.
    pub fn subcell(&self, row: u32, col: u32, total_rows: u32, total_cols: u32) -> (r: Self)
        requires
            self.subcell_fits(row as int, col as int, total_rows as int, total_cols as int),
        ensures
            r.as_tuple() == self.spec_subcell(row as int, col as int, total_rows as int, total_cols as int),
    {
        let (x, width) = partition(self.x, self.width, col as i64, total_cols as i64);
        let (y, height) = partition(self.y, self.height, row as i64, total_rows as i64);
        Self { x, y, width, height }
    }
}

/// Euclidean quotient and remainder by a positive divisor.
fn div_rem_euclid(a: i128, b: i128) -> (r: (i128, i128))
    requires
        b > 0,
        a > i128::MIN,
    ensures
        r.0 == a as int / b as int,
        r.1 == a as int % b as int,
{
    if a >= 0 {
        (a / b, a % b)
    } else {
        let q = a / b;
        let m = a % b;
        proof {
            let na = -(a as int);
            lemma_fundamental_div_mod(na, b as int);
            lemma_mod_bound(na, b as int);
            assert(q == -(na / (b as int)));
            assert(m == -(na % (b as int)));
            assert(a == q * b + m) by (nonlinear_arith)
                requires
                    na == (b as int) * (na / (b as int)) + na % (b as int),
                    q == -(na / (b as int)),
                    m == -(na % (b as int)),
                    na == -(a as int),
            ;
        }
        if m == 0 {
            proof {
                lemma_fundamental_div_mod_converse(a as int, b as int, q as int, 0);
            }
            (q, 0)
        } else {
            proof {
                assert(a == (q - 1) * b + (m + b)) by (nonlinear_arith)
                    requires
                        a == q * b + m,
                ;
                lemma_fundamental_div_mod_converse(a as int, b as int, q - 1, m + b);
            }
            (q - 1, m + b)
        }
    }
}

/// Cell `index` of `count` slices of `[start, start + total)`; the last
/// slice absorbs the remainder. A zero count leaves the span whole.
fn partition(start: i64, total: i64, index: i64, count: i64) -> (r: (i64, i64))
    requires
        0 <= index < 0x1_0000_0000,
        0 <= count < 0x1_0000_0000,
        fits_i64(spec_partition(start as int, total as int, index as int, count as int).0),
        fits_i64(spec_partition(start as int, total as int, index as int, count as int).1),
    ensures
        r.0 == spec_partition(start as int, total as int, index as int, count as int).0,
        r.1 == spec_partition(start as int, total as int, index as int, count as int).1,
{
    if count == 0 {
        return (start, total);
    }
    let (base, rem) = div_rem_euclid(total as i128, count as i128);
    proof {
        lemma_mod_bound(total as int, count as int);
        assert(base * count <= total + 0 || true);
        lemma_fundamental_div_mod(total as int, count as int);
        assert(-0x1_0000_0000_0000_0000 <= base <= 0x1_0000_0000_0000_0000) by (nonlinear_arith)
            requires
                count >= 1,
                total as int == count * base + rem,
                0 <= rem < count,
                i64::MIN <= total <= i64::MAX,
        ;
        assert(-0x1_0000_0000_0000_0000_0000_0000 <= base * index <= 0x1_0000_0000_0000_0000_0000_0000) by (nonlinear_arith)
            requires
                -0x1_0000_0000_0000_0000 <= base <= 0x1_0000_0000_0000_0000,
                0 <= index < 0x1_0000_0000,
        ;
    }
    let size = if index == count - 1 { base + rem } else { base };
    let pos = start as i128 + base * (index as i128);
    (pos as i64, size as i64)
}


/// Partition slices stay inside the span and tile it without gaps: each
/// slice starts where the previous one ends, and the last one ends at
/// `start + total`.
pub proof fn lemma_partition_tiles(start: int, total: int, index: int, count: int)
    requires
        count >= 1,
        total >= 0,
        0 <= index < count,
    ensures
        start <= spec_partition(start, total, index, count).0,
        0 <= spec_partition(start, total, index, count).1,
        spec_partition(start, total, index, count).0 + spec_partition(start, total, index, count).1
            <= start + total,
        index + 1 < count ==> spec_partition(start, total, index + 1, count).0
            == spec_partition(start, total, index, count).0 + spec_partition(start, total, index, count).1,
        index == count - 1 ==> spec_partition(start, total, index, count).0
            + spec_partition(start, total, index, count).1 == start + total,
{
    let base = total / count;
    let rem = total % count;
    lemma_fundamental_div_mod(total, count);
    lemma_mod_bound(total, count);
    lemma_div_pos_is_pos(total, count);
    assert(base * index <= base * (count - 1)) by (nonlinear_arith)
        requires
            base >= 0,
            index <= count - 1,
    ;
    assert(0 <= base * index) by (nonlinear_arith)
        requires
            base >= 0,
            index >= 0,
    ;
    assert(base * (count - 1) + base + rem == total) by (nonlinear_arith)
        requires
            total == count * base + rem,
    ;
    assert(base * (index + 1) == base * index + base) by (nonlinear_arith);
}

/// A cell of a screen rect is a screen rect, whose centre fits an `i64`.
pub proof fn lemma_screen_subcell(r: Rect, row: int, col: int, rows: int, cols: int)
    requires
        r.screen(),
        0 <= row < rows,
        0 <= col < cols,
    ensures
        r.subcell_fits(row, col, rows, cols),
        rect_of(r.spec_subcell(row, col, rows, cols)).screen(),
        rect_of(r.spec_subcell(row, col, rows, cols)).as_tuple() == r.spec_subcell(row, col, rows, cols),
{
    lemma_partition_tiles(r.x as int, r.width as int, col, cols);
    lemma_partition_tiles(r.y as int, r.height as int, row, rows);
}

/// A screen rect's centre fits an `i64`.
pub proof fn lemma_screen_center(r: Rect)
    requires
        r.screen(),
    ensures
        fits_i64(r.spec_center().0),
        fits_i64(r.spec_center().1),
        r.contains_center(),
{
}

impl Rect {
    /// The centre lies inside the rect whenever it has positive size.
    pub open spec fn contains_center(self) -> bool {
        (self.width > 0 && self.height > 0) ==> self.spec_contains(self.spec_center().0, self.spec_center().1)
    }
}

/// The rect with the given coordinates.
pub open spec fn rect_of(t: (int, int, int, int)) -> Rect {
    Rect { x: t.0 as i64, y: t.1 as i64, width: t.2 as i64, height: t.3 as i64 }
}

/// The centre of a screen rect as a point.
pub open spec fn center_point(r: Rect) -> (i64, i64) {
    (r.spec_center().0 as i64, r.spec_center().1 as i64)
}


#[derive(Debug, Clone, PartialEq, Eq)]
pub struct GridConfig {
    pub rows: u32,
    pub cols: u32,
    /// Cell keys in reading order: the simple grid's cells, or the dense
    /// layout's nested subgrid.
    pub keys: Vec<LogicalKey>,
    pub auto_free_mode_after_move: bool,
    pub nudge_enabled: bool,
    pub nudge_step_px: i64,
    /// Release the final subgrid key with the left button held, so flow keys drag.
    pub drag_after_select: bool,
    /// Two-letter outer grid (column key then row key) plus a nested subgrid.
    pub dense: bool,
    /// Dense layout: one key per outer column.
    pub column_keys: Vec<LogicalKey>,
    /// Dense layout: one key per outer row.
    pub row_keys: Vec<LogicalKey>,
}

/// The abstract content of a grid configuration.
pub struct GridView {
    pub rows: u32,
    pub cols: u32,
    pub keys: Seq<LogicalKey>,
    pub auto_free_mode_after_move: bool,
    pub nudge_enabled: bool,
    pub nudge_step_px: i64,
    pub drag_after_select: bool,
    pub dense: bool,
    pub column_keys: Seq<LogicalKey>,
    pub row_keys: Seq<LogicalKey>,
}

impl View for GridConfig {
    type V = GridView;

    open spec fn view(&self) -> GridView {
        GridView {
            rows: self.rows,
            cols: self.cols,
            keys: self.keys@,
            auto_free_mode_after_move: self.auto_free_mode_after_move,
            nudge_enabled: self.nudge_enabled,
            nudge_step_px: self.nudge_step_px,
            drag_after_select: self.drag_after_select,
            dense: self.dense,
            column_keys: self.column_keys@,
            row_keys: self.row_keys@,
        }
    }
}

/// The dense layout's configuration.
pub open spec fn dense_grid() -> GridView {
    GridView {
        rows: 3,
        cols: 10,
        keys: qwerty_keys(),
        auto_free_mode_after_move: false,
        nudge_enabled: true,
        nudge_step_px: 1,
        drag_after_select: false,
        dense: true,
        column_keys: home_row_keys(),
        row_keys: qwerty_keys(),
    }
}

/// The simple layout's configuration.
pub open spec fn simple_grid() -> GridView {
    GridView {
        rows: 3,
        cols: 3,
        keys: simple_keys(),
        auto_free_mode_after_move: true,
        nudge_enabled: true,
        nudge_step_px: 5,
        drag_after_select: false,
        dense: false,
        column_keys: Seq::empty(),
        row_keys: Seq::empty(),
    }
}

/// The simple layout's nine cell keys.
pub open spec fn simple_keys() -> Seq<LogicalKey> {
    seq![LogicalKey::U, LogicalKey::I, LogicalKey::O, LogicalKey::J, LogicalKey::K,
        LogicalKey::L, LogicalKey::M, LogicalKey::Comma, LogicalKey::Dot]
}

/// The dense layout's thirty keys in QWERTY reading order: rows of the
/// outer grid and cells of the nested subgrid.
pub open spec fn qwerty_keys() -> Seq<LogicalKey> {
    seq![LogicalKey::Q, LogicalKey::W, LogicalKey::E, LogicalKey::R, LogicalKey::T,
        LogicalKey::Y, LogicalKey::U, LogicalKey::I, LogicalKey::O, LogicalKey::P,
        LogicalKey::A, LogicalKey::S, LogicalKey::D, LogicalKey::F, LogicalKey::G,
        LogicalKey::H, LogicalKey::J, LogicalKey::K, LogicalKey::L, LogicalKey::Semicolon,
        LogicalKey::Z, LogicalKey::X, LogicalKey::C, LogicalKey::V, LogicalKey::B,
        LogicalKey::N, LogicalKey::M, LogicalKey::Comma, LogicalKey::Dot, LogicalKey::Slash]
}

/// The dense layout's ten column keys: the home row.
pub open spec fn home_row_keys() -> Seq<LogicalKey> {
    seq![LogicalKey::A, LogicalKey::S, LogicalKey::D, LogicalKey::F, LogicalKey::G,
        LogicalKey::H, LogicalKey::J, LogicalKey::K, LogicalKey::L, LogicalKey::Semicolon]
}

fn vec_of(keys: &[LogicalKey]) -> (v: Vec<LogicalKey>)
    ensures
        v@ == keys@,
{
    let mut v = Vec::new();
    let mut i: usize = 0;
    while i < keys.len()
        invariant
            i <= keys.len(),
            v@ == keys@.subrange(0, i as int),
        decreases keys.len() - i,
    {
        v.push(keys[i]);
        i = i + 1;
        proof { assert(v@ == keys@.subrange(0, i as int)); }
    }
    proof { assert(keys@.subrange(0, keys@.len() as int) == keys@); }
    v
}

pub fn copy_key_vec(keys: &Vec<LogicalKey>) -> (v: Vec<LogicalKey>)
    ensures
        v@ == keys@,
{
    vec_of(keys.as_slice())
}

fn copy_keys(keys: &Vec<LogicalKey>) -> (v: Vec<LogicalKey>)
    ensures
        v@ == keys@,
{
    vec_of(keys.as_slice())
}

impl GridConfig {
    /// Dense layout: a 10 x 30 two-letter outer grid and a 3 x 10 subgrid,
    /// with one-pixel nudges and a click when the final key is released.
    pub fn dense() -> (c: Self)
        ensures
            c.rows == 3,
            c.cols == 10,
            c.keys@ == qwerty_keys(),
            !c.auto_free_mode_after_move,
            c.nudge_enabled,
            c.nudge_step_px == 1,
            !c.drag_after_select,
            c.dense,
            c.column_keys@ == home_row_keys(),
            c.row_keys@ == qwerty_keys(),
    {
        let q = [LogicalKey::Q, LogicalKey::W, LogicalKey::E, LogicalKey::R, LogicalKey::T,
            LogicalKey::Y, LogicalKey::U, LogicalKey::I, LogicalKey::O, LogicalKey::P,
            LogicalKey::A, LogicalKey::S, LogicalKey::D, LogicalKey::F, LogicalKey::G,
            LogicalKey::H, LogicalKey::J, LogicalKey::K, LogicalKey::L, LogicalKey::Semicolon,
            LogicalKey::Z, LogicalKey::X, LogicalKey::C, LogicalKey::V, LogicalKey::B,
            LogicalKey::N, LogicalKey::M, LogicalKey::Comma, LogicalKey::Dot, LogicalKey::Slash];
        let h = [LogicalKey::A, LogicalKey::S, LogicalKey::D, LogicalKey::F, LogicalKey::G,
            LogicalKey::H, LogicalKey::J, LogicalKey::K, LogicalKey::L, LogicalKey::Semicolon];
        let keys = vec_of(&q);
        let row_keys = vec_of(&q);
        let column_keys = vec_of(&h);
        proof {
            assert(keys@ == qwerty_keys());
            assert(column_keys@ == home_row_keys());
        }
        GridConfig {
            rows: 3,
            cols: 10,
            keys,
            auto_free_mode_after_move: false,
            nudge_enabled: true,
            nudge_step_px: 1,
            drag_after_select: false,
            dense: true,
            column_keys,
            row_keys,
        }
    }

    /// Simple layout with nudging off: choosing the final cell moves the
    /// pointer and returns straight to pointer mode.
    pub fn simple() -> (c: Self)
        ensures
            c.rows == 3,
            c.cols == 3,
            c.keys@ == simple_keys(),
            c.auto_free_mode_after_move,
            !c.nudge_enabled,
            c.nudge_step_px == 5,
            !c.drag_after_select,
            !c.dense,
            c.column_keys@.len() == 0,
            c.row_keys@.len() == 0,
    {
        let mut c = GridConfig::default();
        c.nudge_enabled = false;
        c
    }

    /// The two configurations hold the same values.
    pub open spec fn same(self, other: Self) -> bool {
        &&& self.rows == other.rows
        &&& self.cols == other.cols
        &&& self.keys@ == other.keys@
        &&& self.auto_free_mode_after_move == other.auto_free_mode_after_move
        &&& self.nudge_enabled == other.nudge_enabled
        &&& self.nudge_step_px == other.nudge_step_px
        &&& self.drag_after_select == other.drag_after_select
        &&& self.dense == other.dense
        &&& self.column_keys@ == other.column_keys@
        &&& self.row_keys@ == other.row_keys@
    }

    /// Field-by-field copy.
    pub fn duplicate(&self) -> (c: Self)
        ensures
            c.same(*self),
    {
        let c = GridConfig {
            rows: self.rows,
            cols: self.cols,
            keys: copy_keys(&self.keys),
            auto_free_mode_after_move: self.auto_free_mode_after_move,
            nudge_enabled: self.nudge_enabled,
            nudge_step_px: self.nudge_step_px,
            drag_after_select: self.drag_after_select,
            dense: self.dense,
            column_keys: copy_keys(&self.column_keys),
            row_keys: copy_keys(&self.row_keys),
        };
        c
    }
}

impl Default for GridConfig {
    /// Simple 3 x 3 layout over the U I O / J K L / M , . block.
    fn default() -> (c: Self)
        ensures
            c.rows == 3,
            c.cols == 3,
            c.keys@ == simple_keys(),
            c.auto_free_mode_after_move,
            c.nudge_enabled,
            c.nudge_step_px == 5,
            !c.drag_after_select,
            !c.dense,
            c.column_keys@.len() == 0,
            c.row_keys@.len() == 0,
    {
        let k = [LogicalKey::U, LogicalKey::I, LogicalKey::O, LogicalKey::J, LogicalKey::K,
            LogicalKey::L, LogicalKey::M, LogicalKey::Comma, LogicalKey::Dot];
        let keys = vec_of(&k);
        proof { assert(keys@ == simple_keys()); }
        GridConfig {
            rows: 3,
            cols: 3,
            keys,
            auto_free_mode_after_move: true,
            nudge_enabled: true,
            nudge_step_px: 5,
            drag_after_select: false,
            dense: false,
            column_keys: Vec::new(),
            row_keys: Vec::new(),
        }
    }
}


/// One grid cell as handed to an overlay renderer.
#[derive(Debug, Clone, PartialEq, Eq)]
pub struct OverlayCell {
    pub rect: Rect,
    pub label: String,
}

/// Pure overlay description. Renderers draw it; the navigator never touches a screen.
#[derive(Debug, Clone, PartialEq, Eq)]
pub struct OverlayFrame {
    pub level: u8,
    pub cells: Vec<OverlayCell>,
    /// Cell the pointer is being placed in, drawn with emphasis.
    pub highlight: Option<Rect>,
    /// Selected point, drawn as a marker. `None` until a point is chosen.
    pub pointer: Option<(i64, i64)>,
}

/// A cell's rect and the characters of its label.
pub type CellView = (Rect, Seq<char>);

/// The abstract content of an overlay frame.
pub struct FrameView {
    pub level: u8,
    pub cells: Seq<CellView>,
    pub highlight: Option<Rect>,
    pub pointer: Option<(i64, i64)>,
}

impl View for OverlayCell {
    type V = CellView;

    open spec fn view(&self) -> CellView {
        (self.rect, self.label@)
    }
}

impl View for OverlayFrame {
    type V = FrameView;

    open spec fn view(&self) -> FrameView {
        FrameView {
            level: self.level,
            cells: self.cells@.map_values(|c: OverlayCell| c@),
            highlight: self.highlight,
            pointer: self.pointer,
        }
    }
}

/// The view of an optional frame.
pub open spec fn opt_frame_view(f: Option<OverlayFrame>) -> Option<FrameView> {
    match f {
        Some(frame) => Some(frame@),
        None => None,
    }
}

impl OverlayCell {
    pub fn duplicate(&self) -> (c: Self)
        ensures
            c@ == self@,
    {
        OverlayCell { rect: self.rect, label: self.label.clone() }
    }
}

impl OverlayFrame {
    /// Cell-by-cell copy.
    pub fn duplicate(&self) -> (f: Self)
        ensures
            f@ == self@,
    {
        let mut cells: Vec<OverlayCell> = Vec::new();
        let mut i: usize = 0;
        while i < self.cells.len()
            invariant
                i <= self.cells.len(),
                cells@.len() == i,
                forall|j: int| 0 <= j < i ==> cells@[j]@ == self.cells@[j]@,
            decreases self.cells.len() - i,
        {
            cells.push(self.cells[i].duplicate());
            i = i + 1;
        }
        let f = OverlayFrame { level: self.level, cells, highlight: self.highlight, pointer: self.pointer };
        proof {
            assert(f@.cells =~= self@.cells);
        }
        f
    }

    /// Number of cells whose label has exactly `n` characters.
    pub fn count_labels_of_len(&self, n: usize) -> (k: usize)
        ensures
            k == self@.cells.filter(|c: CellView| c.1.len() == n).len(),
    {
        let ghost all = self@.cells;
        let mut k: usize = 0;
        let mut i: usize = 0;
        while i < self.cells.len()
            invariant
                i <= self.cells.len(),
                all == self@.cells,
                k == all.take(i as int).filter(|c: CellView| c.1.len() == n).len(),
                k <= i,
            decreases self.cells.len() - i,
        {
            proof {
                reveal(Seq::filter);
                assert(all.take(i as int + 1).drop_last() =~= all.take(i as int));
                assert(all.take(i as int + 1).last() == all[i as int]);
            }
            if self.cells[i].label.unicode_len() == n {
                k = k + 1;
            }
            i = i + 1;
        }
        proof {
            assert(all.take(i as int) =~= all);
        }
        k
    }
}

/// Whether two frames describe the same overlay.
pub fn frame_eq(a: &OverlayFrame, b: &OverlayFrame) -> (r: bool)
    ensures
        r == (a@ == b@),
{
    if a.level != b.level || a.highlight != b.highlight || a.pointer != b.pointer
        || a.cells.len() != b.cells.len() {
        proof {
            if a@ == b@ {
                assert(a@.cells.len() == b@.cells.len());
            }
        }
        return false;
    }
    let mut i: usize = 0;
    while i < a.cells.len()
        invariant
            i <= a.cells.len(),
            a.cells.len() == b.cells.len(),
            forall|j: int| 0 <= j < i ==> a.cells@[j]@ == b.cells@[j]@,
        decreases a.cells.len() - i,
    {
        if a.cells[i].rect != b.cells[i].rect || a.cells[i].label != b.cells[i].label {
            proof {
                assert(a@.cells[i as int] != b@.cells[i as int]);
            }
            return false;
        }
        i = i + 1;
    }
    proof {
        assert(a@.cells =~= b@.cells);
    }
    true
}

/// Whether two optional frames describe the same overlay.
pub fn opt_frame_eq(a: &Option<OverlayFrame>, b: &Option<OverlayFrame>) -> (r: bool)
    ensures
        r == (opt_frame_view(*a) == opt_frame_view(*b)),
{
    match (a, b) {
        (Some(x), Some(y)) => frame_eq(x, y),
        (None, None) => true,
        _ => false,
    }
}


#[derive(Debug, Clone, Copy, PartialEq, Eq)]
pub enum GridState {
    Inactive,
    Level1,
    Level2 { parent: Rect },
    Nudging { parent: Rect, current_pos: (i64, i64), held_key: LogicalKey },
}

#[derive(Debug, Clone, Copy, PartialEq, Eq, Structural)]
pub enum GridNavAction {
    ShowOverlayLevel1,
    ShowOverlayLevel2(Rect),
    HideOverlay,
    MoveCursorTo(i64, i64),
    Nudge(i64, i64),
    ClickAt(i64, i64),
    StartDrag(i64, i64),
    EnterFreeMode,
}

/// Index of the last occurrence of `k` in `s`, or -1 when absent.
pub open spec fn last_index(s: Seq<LogicalKey>, k: LogicalKey) -> int
    decreases s.len(),
{
    if s.len() == 0 {
        -1
    } else if s.last() == k {
        s.len() - 1
    } else {
        last_index(s.drop_last(), k)
    }
}

pub proof fn lemma_last_index(s: Seq<LogicalKey>, k: LogicalKey)
    ensures
        -1 <= last_index(s, k) < s.len(),
        last_index(s, k) >= 0 ==> s[last_index(s, k)] == k,
        forall|j: int| last_index(s, k) < j < s.len() ==> s[j] != k,
        last_index(s, k) < 0 <==> !s.contains(k),
    decreases s.len(),
{
    if s.len() > 0 {
        lemma_last_index(s.drop_last(), k);
        if s.last() != k {
            assert forall|j: int| 0 <= j < s.len() && s[j] == k implies j < s.len() - 1 && s.drop_last()[j] == k by {}
        }
    }
}

/// The sequence with the last occurrence of `k` taken out.
pub open spec fn without(s: Seq<LogicalKey>, k: LogicalKey) -> Seq<LogicalKey> {
    if last_index(s, k) >= 0 {
        s.remove(last_index(s, k))
    } else {
        s
    }
}

fn find_last(keys: &Vec<LogicalKey>, k: LogicalKey) -> (r: Option<usize>)
    ensures
        match r {
            Some(i) => i == last_index(keys@, k),
            None => last_index(keys@, k) == -1,
        },
{
    let mut i: usize = keys.len();
    proof {
        assert(keys@.take(i as int) =~= keys@);
    }
    while i > 0
        invariant
            i <= keys.len(),
            last_index(keys@, k) == last_index(keys@.take(i as int), k),
        decreases i,
    {
        if keys[i - 1] == k {
            return Some(i - 1);
        }
        proof {
            assert(keys@.take(i as int).drop_last() =~= keys@.take(i - 1));
        }
        i = i - 1;
    }
    None
}

/// Row and column of the cell a key selects: the key's last position in
/// reading order, when it lies inside the `rows` x `cols` grid.
pub open spec fn key_cell(cfg: GridConfig, k: LogicalKey) -> Option<(int, int)> {
    let i = last_index(cfg.keys@, k);
    if i >= 0 && cfg.cols > 0 && i < cfg.rows * cfg.cols {
        Some((i / (cfg.cols as int), i % (cfg.cols as int)))
    } else {
        None
    }
}

/// Key lists short enough to be indexed by `u32` cell coordinates.
pub open spec fn config_ok(cfg: GridConfig) -> bool {
    &&& cfg.keys@.len() < 0x1_0000_0000
    &&& cfg.column_keys@.len() < 0x1_0000_0000
    &&& cfg.row_keys@.len() < 0x1_0000_0000
}

proof fn lemma_cell_bounds(i: int, rows: int, cols: int)
    requires
        0 <= i < rows * cols,
        cols > 0,
    ensures
        0 <= i / cols < rows,
        0 <= i % cols < cols,
        (i / cols) * cols + i % cols == i,
{
    lemma_fundamental_div_mod(i, cols);
    lemma_mod_bound(i, cols);
    lemma_div_pos_is_pos(i, cols);
    lemma_mul_is_commutative(i / cols, cols);
    assert(i / cols < rows) by (nonlinear_arith)
        requires
            i == cols * (i / cols) + i % cols,
            0 <= i % cols,
            i < rows * cols,
            cols > 0,
    ;
}

fn cell_of(cfg: &GridConfig, k: LogicalKey) -> (r: Option<(u32, u32)>)
    requires
        config_ok(*cfg),
    ensures
        match r {
            Some((row, col)) => key_cell(*cfg, k) == Some((row as int, col as int)),
            None => key_cell(*cfg, k) is None,
        },
{
    match find_last(&cfg.keys, k) {
        Some(i) => {
            if cfg.cols == 0 {
                return None;
            }
            proof {
                lemma_mul_upper_bound(cfg.rows as int, 0xffff_ffff, cfg.cols as int, 0xffff_ffff);
            }
            let total: u64 = (cfg.rows as u64) * (cfg.cols as u64);
            if (i as u64) < total {
                proof {
                    lemma_cell_bounds(i as int, cfg.rows as int, cfg.cols as int);
                }
                let row = (i as u64 / cfg.cols as u64) as u32;
                let col = (i as u64 % cfg.cols as u64) as u32;
                Some((row, col))
            } else {
                None
            }
        }
        None => None,
    }
}


/// The navigator's state as the contracts see it.
pub struct NavView {
    pub monitors: Seq<Rect>,
    pub active: int,
    pub config: GridConfig,
    pub state: GridState,
    /// Dense layout: the outer column chosen by the first key.
    pub column: Option<int>,
    /// Dense layout: the outer row chosen by the second key.
    pub row: Option<int>,
    /// Dense layout: keys pressed and not yet released.
    pub held: Seq<LogicalKey>,
}

/// Saturating `i64` addition.
pub open spec fn sat_add(a: int, b: int) -> i64 {
    if a + b > i64::MAX {
        i64::MAX
    } else if a + b < i64::MIN {
        i64::MIN
    } else {
        (a + b) as i64
    }
}

/// Saturating `i64` negation.
pub open spec fn sat_neg(a: i64) -> i64 {
    if a == i64::MIN { i64::MAX } else { (-a) as i64 }
}

/// Offset a nudge key applies: H or A left, J or S down, K or W up, L or D right.
pub open spec fn nudge_delta(step: i64, k: LogicalKey) -> Option<(i64, i64)> {
    match k {
        LogicalKey::H | LogicalKey::A => Some((sat_neg(step), 0i64)),
        LogicalKey::J | LogicalKey::S => Some((0i64, step)),
        LogicalKey::K | LogicalKey::W => Some((0i64, sat_neg(step))),
        LogicalKey::L | LogicalKey::D => Some((step, 0i64)),
        _ => None,
    }
}

impl NavView {
    /// Outer grid rows of the dense layout.
    pub open spec fn bank_rows(self) -> int {
        self.config.row_keys@.len() as int
    }

    /// Outer grid columns of the dense layout.
    pub open spec fn bank_cols(self) -> int {
        self.config.column_keys@.len() as int
    }

    /// The monitor the grid covers; an empty rect when there is none.
    pub open spec fn area(self) -> Rect {
        if 0 <= self.active < self.monitors.len() {
            self.monitors[self.active]
        } else {
            Rect { x: 0, y: 0, width: 0, height: 0 }
        }
    }

    pub open spec fn wf(self) -> bool {
        &&& forall|i: int| 0 <= i < self.monitors.len() ==> #[trigger] self.monitors[i].screen()
        &&& 0 <= self.active
        &&& config_ok(self.config)
        &&& match self.state {
            GridState::Level2 { parent } => parent.screen(),
            GridState::Nudging { parent, .. } => parent.screen(),
            _ => true,
        }
        &&& match self.column {
            Some(c) => 0 <= c < self.bank_cols(),
            None => true,
        }
        &&& match self.row {
            Some(r) => 0 <= r < self.bank_rows(),
            None => true,
        }
    }

    pub open spec fn with_state(self, state: GridState) -> NavView {
        NavView { state, ..self }
    }

    /// Grid shown at level 1 with no selection.
    pub open spec fn activated(self) -> NavView {
        NavView { state: GridState::Level1, column: None, row: None, held: Seq::empty(), ..self }
    }

    /// Grid hidden, selection cleared.
    pub open spec fn deactivated(self) -> NavView {
        NavView { state: GridState::Inactive, column: None, row: None, ..self }
    }

    /// Dense level 1: a column key narrows the outer grid to that column, then
    /// a row key picks the cell and moves the pointer to its centre.
    pub open spec fn dense_level1(self, k: LogicalKey) -> (NavView, Option<GridNavAction>) {
        match self.column {
            None => {
                let c = last_index(self.config.column_keys@, k);
                if c >= 0 {
                    (NavView { column: Some(c), ..self }, Some(GridNavAction::ShowOverlayLevel1))
                } else if k == LogicalKey::Esc {
                    (self.deactivated(), Some(GridNavAction::HideOverlay))
                } else {
                    (self, None)
                }
            }
            Some(c) => {
                let r = last_index(self.config.row_keys@, k);
                if r >= 0 {
                    let parent = rect_of(self.area().spec_subcell(r, c, self.bank_rows(), self.bank_cols()));
                    let p = center_point(parent);
                    (
                        NavView { state: GridState::Level2 { parent }, row: Some(r), ..self },
                        Some(GridNavAction::MoveCursorTo(p.0, p.1)),
                    )
                } else if k == LogicalKey::Backspace {
                    (NavView { column: None, ..self }, Some(GridNavAction::ShowOverlayLevel1))
                } else if k == LogicalKey::Esc {
                    (self.deactivated(), Some(GridNavAction::HideOverlay))
                } else {
                    (self, None)
                }
            }
        }
    }

    /// One key press once the repeat guard has let it through.
    pub open spec fn press_step(self, k: LogicalKey) -> (NavView, Option<GridNavAction>) {
        let cfg = self.config;
        match self.state {
            GridState::Inactive => (self, None),
            GridState::Level1 => {
                if cfg.dense {
                    self.dense_level1(k)
                } else {
                    match key_cell(cfg, k) {
                        Some((r, c)) => {
                            let cell = rect_of(self.area().spec_subcell(r, c, cfg.rows as int, cfg.cols as int));
                            (self.with_state(GridState::Level2 { parent: cell }), Some(GridNavAction::ShowOverlayLevel2(cell)))
                        }
                        None => if k == LogicalKey::Esc {
                            (self.deactivated(), Some(GridNavAction::HideOverlay))
                        } else {
                            (self, None)
                        },
                    }
                }
            }
            GridState::Level2 { parent } => {
                match key_cell(cfg, k) {
                    Some((r, c)) => {
                        let t = center_point(rect_of(parent.spec_subcell(r, c, cfg.rows as int, cfg.cols as int)));
                        if cfg.nudge_enabled {
                            (
                                self.with_state(GridState::Nudging { parent, current_pos: t, held_key: k }),
                                Some(GridNavAction::MoveCursorTo(t.0, t.1)),
                            )
                        } else if cfg.auto_free_mode_after_move {
                            (self.deactivated(), Some(GridNavAction::MoveCursorTo(t.0, t.1)))
                        } else {
                            (self.deactivated(), Some(GridNavAction::ClickAt(t.0, t.1)))
                        }
                    }
                    None => if k == LogicalKey::Space {
                        let p = center_point(parent);
                        (self.deactivated(), Some(GridNavAction::ClickAt(p.0, p.1)))
                    } else if k == LogicalKey::Backspace {
                        (NavView { state: GridState::Level1, row: None, ..self }, Some(GridNavAction::ShowOverlayLevel1))
                    } else if k == LogicalKey::Esc {
                        (self.deactivated(), Some(GridNavAction::HideOverlay))
                    } else {
                        (self, None)
                    },
                }
            }
            GridState::Nudging { parent, current_pos, held_key } => {
                match nudge_delta(cfg.nudge_step_px, k) {
                    Some((dx, dy)) => {
                        let pos = (sat_add(current_pos.0 as int, dx as int), sat_add(current_pos.1 as int, dy as int));
                        (
                            self.with_state(GridState::Nudging { parent, current_pos: pos, held_key }),
                            Some(GridNavAction::Nudge(dx, dy)),
                        )
                    }
                    None => if k == LogicalKey::Backspace {
                        (self.with_state(GridState::Level2 { parent }), Some(GridNavAction::ShowOverlayLevel2(parent)))
                    } else if k == LogicalKey::Esc {
                        (self.deactivated(), Some(GridNavAction::HideOverlay))
                    } else {
                        (self, None)
                    },
                }
            }
        }
    }

    /// A key press. In the dense layout a press of a key still held (an auto
    /// repeat) changes nothing.
    pub open spec fn press(self, k: LogicalKey) -> (NavView, Option<GridNavAction>) {
        if self.state is Inactive {
            (self, None)
        } else if self.config.dense && self.held.contains(k) {
            (self, None)
        } else if self.config.dense {
            NavView { held: self.held.push(k), ..self }.press_step(k)
        } else {
            self.press_step(k)
        }
    }

    /// A key release: releasing the key that chose the nudged point commits
    /// it as a drag start, a return to pointer mode, or a click.
    pub open spec fn release(self, k: LogicalKey) -> (NavView, Option<GridNavAction>) {
        let v = if self.config.dense { NavView { held: without(self.held, k), ..self } } else { self };
        match v.state {
            GridState::Nudging { current_pos, held_key, .. } => if k == held_key {
                (
                    v.deactivated(),
                    Some(
                        if v.config.drag_after_select {
                            GridNavAction::StartDrag(current_pos.0, current_pos.1)
                        } else if v.config.auto_free_mode_after_move {
                            GridNavAction::EnterFreeMode
                        } else {
                            GridNavAction::ClickAt(current_pos.0, current_pos.1)
                        },
                    ),
                )
            } else {
                (v, None)
            },
            _ => (v, None),
        }
    }
}


/// How many key cells a grid shows: the keys that fall inside `rows` x `cols`.
pub open spec fn key_cell_count(cfg: GridConfig) -> int {
    if cfg.cols == 0 {
        0
    } else if cfg.keys@.len() < cfg.rows * cfg.cols {
        cfg.keys@.len() as int
    } else {
        cfg.rows * cfg.cols
    }
}

/// The key cells over `area` in reading order, each labelled with its key.
pub open spec fn key_cells(area: Rect, cfg: GridConfig) -> Seq<CellView> {
    Seq::new(
        key_cell_count(cfg) as nat,
        |i: int|
            (
                rect_of(area.spec_subcell(i / (cfg.cols as int), i % (cfg.cols as int), cfg.rows as int, cfg.cols as int)),
                cfg.keys@[i].name(),
            ),
    )
}

/// Dense outer cell at row `r`, column `c`, labelled column key then row key.
pub open spec fn bank_cell(area: Rect, cfg: GridConfig, r: int, c: int) -> CellView {
    let rows = cfg.row_keys@.len() as int;
    let cols = cfg.column_keys@.len() as int;
    (rect_of(area.spec_subcell(r, c, rows, cols)), cfg.column_keys@[c].name() + cfg.row_keys@[r].name())
}

/// Every dense outer cell, rows outer.
pub open spec fn bank_cells(area: Rect, cfg: GridConfig) -> Seq<CellView> {
    let cols = cfg.column_keys@.len() as int;
    Seq::new(
        (cfg.row_keys@.len() * cfg.column_keys@.len()) as nat,
        |i: int| bank_cell(area, cfg, i / cols, i % cols),
    )
}

/// The dense outer cells of one column, top to bottom.
pub open spec fn column_cells(area: Rect, cfg: GridConfig, c: int) -> Seq<CellView> {
    Seq::new(cfg.row_keys@.len(), |r: int| bank_cell(area, cfg, r, c))
}

impl NavView {
    /// Dense level 2: the outer cells but the chosen one.
    pub open spec fn outer_cells(self) -> Seq<CellView> {
        let all = bank_cells(self.area(), self.config);
        match (self.row, self.column) {
            (Some(r), Some(c)) => all.remove(r * self.bank_cols() + c),
            _ => all,
        }
    }

    /// Level 2 cells around the chosen cell `parent`.
    pub open spec fn level2_cells(self, parent: Rect) -> Seq<CellView> {
        if self.config.dense {
            self.outer_cells() + key_cells(parent, self.config)
        } else {
            key_cells(parent, self.config)
        }
    }

    /// What the overlay shows in this state.
    pub open spec fn frame(self) -> Option<FrameView> {
        let cfg = self.config;
        match self.state {
            GridState::Inactive => None,
            GridState::Level1 => Some(
                FrameView {
                    level: 1,
                    cells: if cfg.dense {
                        match self.column {
                            Some(c) => column_cells(self.area(), cfg, c),
                            None => bank_cells(self.area(), cfg),
                        }
                    } else {
                        key_cells(self.area(), cfg)
                    },
                    highlight: None,
                    pointer: None,
                },
            ),
            GridState::Level2 { parent } => Some(
                FrameView {
                    level: 2,
                    cells: self.level2_cells(parent),
                    highlight: Some(parent),
                    pointer: if cfg.dense { Some(center_point(parent)) } else { None },
                },
            ),
            GridState::Nudging { parent, current_pos, held_key } => Some(
                FrameView {
                    level: 2,
                    cells: self.level2_cells(parent),
                    highlight: match key_cell(cfg, held_key) {
                        Some((r, c)) => Some(rect_of(parent.spec_subcell(r, c, cfg.rows as int, cfg.cols as int))),
                        None => Some(parent),
                    },
                    pointer: Some(current_pos),
                },
            ),
        }
    }
}

fn key_cells_exec(area: Rect, cfg: &GridConfig) -> (v: Vec<OverlayCell>)
    requires
        area.screen(),
        config_ok(*cfg),
    ensures
        v@.map_values(|c: OverlayCell| c@) == key_cells(area, *cfg),
{
    let mut cells: Vec<OverlayCell> = Vec::new();
    if cfg.cols == 0 {
        proof {
            assert(cells@.map_values(|c: OverlayCell| c@) =~= key_cells(area, *cfg));
        }
        return cells;
    }
    proof {
        lemma_mul_upper_bound(cfg.rows as int, 0xffff_ffff, cfg.cols as int, 0xffff_ffff);
    }
    let total: u64 = (cfg.rows as u64) * (cfg.cols as u64);
    let n: usize = if (cfg.keys.len() as u64) < total { cfg.keys.len() } else { total as usize };
    let ghost want = key_cells(area, *cfg);
    let mut i: usize = 0;
    while i < n
        invariant
            i <= n,
            n == key_cell_count(*cfg),
            n <= cfg.keys@.len(),
            cfg.cols > 0,
            area.screen(),
            config_ok(*cfg),
            want == key_cells(area, *cfg),
            cells@.len() == i,
            forall|j: int| 0 <= j < i ==> #[trigger] cells@[j]@ == want[j],
        decreases n - i,
    {
        proof {
            lemma_cell_bounds(i as int, cfg.rows as int, cfg.cols as int);
        }
        let row = (i as u64 / cfg.cols as u64) as u32;
        let col = (i as u64 % cfg.cols as u64) as u32;
        proof {
            lemma_screen_subcell(area, row as int, col as int, cfg.rows as int, cfg.cols as int);
        }
        let rect = area.subcell(row, col, cfg.rows, cfg.cols);
        let label = String::from_str(cfg.keys[i].label());
        cells.push(OverlayCell { rect, label });
        i = i + 1;
    }
    proof {
        assert(cells@.map_values(|c: OverlayCell| c@) =~= want);
    }
    cells
}

fn bank_cell_exec(area: Rect, cfg: &GridConfig, r: usize, c: usize) -> (cell: OverlayCell)
    requires
        area.screen(),
        config_ok(*cfg),
        r < cfg.row_keys@.len(),
        c < cfg.column_keys@.len(),
    ensures
        cell@ == bank_cell(area, *cfg, r as int, c as int),
{
    let rows = cfg.row_keys.len() as u32;
    let cols = cfg.column_keys.len() as u32;
    proof {
        lemma_screen_subcell(area, r as int, c as int, rows as int, cols as int);
    }
    let rect = area.subcell(r as u32, c as u32, rows, cols);
    let mut label = String::from_str(cfg.column_keys[c].label());
    label.append(cfg.row_keys[r].label());
    OverlayCell { rect, label }
}

fn bank_cells_exec(area: Rect, cfg: &GridConfig) -> (v: Vec<OverlayCell>)
    requires
        area.screen(),
        config_ok(*cfg),
    ensures
        v@.map_values(|c: OverlayCell| c@) == bank_cells(area, *cfg),
{
    let rows = cfg.row_keys.len();
    let cols = cfg.column_keys.len();
    let ghost want = bank_cells(area, *cfg);
    let mut cells: Vec<OverlayCell> = Vec::new();
    let mut r: usize = 0;
    while r < rows
        invariant
            r <= rows,
            rows == cfg.row_keys@.len(),
            cols == cfg.column_keys@.len(),
            area.screen(),
            config_ok(*cfg),
            want == bank_cells(area, *cfg),
            cells@.len() == r * cols,
            forall|j: int| 0 <= j < r * cols ==> #[trigger] cells@[j]@ == want[j],
        decreases rows - r,
    {
        let mut c: usize = 0;
        while c < cols
            invariant
                r < rows,
                c <= cols,
                rows == cfg.row_keys@.len(),
                cols == cfg.column_keys@.len(),
                area.screen(),
                config_ok(*cfg),
                want == bank_cells(area, *cfg),
                cells@.len() == r * cols + c,
                forall|j: int| 0 <= j < r * cols + c ==> #[trigger] cells@[j]@ == want[j],
            decreases cols - c,
        {
            let cell = bank_cell_exec(area, cfg, r, c);
            proof {
                let j = r * cols + c;
                lemma_fundamental_div_mod_converse(j as int, cols as int, r as int, c as int);
                assert(r * cols + c < rows * cols) by (nonlinear_arith)
                    requires
                        r < rows,
                        c < cols,
                ;
            }
            cells.push(cell);
            c = c + 1;
        }
        proof {
            assert((r + 1) * cols == r * cols + cols) by (nonlinear_arith);
        }
        r = r + 1;
    }
    proof {
        assert(cells@.map_values(|c: OverlayCell| c@) =~= want);
    }
    cells
}

fn column_cells_exec(area: Rect, cfg: &GridConfig, c: usize) -> (v: Vec<OverlayCell>)
    requires
        area.screen(),
        config_ok(*cfg),
        c < cfg.column_keys@.len(),
    ensures
        v@.map_values(|x: OverlayCell| x@) == column_cells(area, *cfg, c as int),
{
    let ghost want = column_cells(area, *cfg, c as int);
    let mut cells: Vec<OverlayCell> = Vec::new();
    let mut r: usize = 0;
    while r < cfg.row_keys.len()
        invariant
            r <= cfg.row_keys@.len(),
            c < cfg.column_keys@.len(),
            area.screen(),
            config_ok(*cfg),
            want == column_cells(area, *cfg, c as int),
            cells@.len() == r,
            forall|j: int| 0 <= j < r ==> #[trigger] cells@[j]@ == want[j],
        decreases cfg.row_keys@.len() - r,
    {
        cells.push(bank_cell_exec(area, cfg, r, c));
        r = r + 1;
    }
    proof {
        assert(cells@.map_values(|x: OverlayCell| x@) =~= want);
    }
    cells
}


/// Index of the first monitor containing the point, or -1.
pub open spec fn first_containing(ms: Seq<Rect>, x: int, y: int) -> int
    decreases ms.len(),
{
    if ms.len() == 0 {
        -1
    } else {
        let f = first_containing(ms.drop_last(), x, y);
        if f >= 0 {
            f
        } else if ms.last().spec_contains(x, y) {
            ms.len() - 1
        } else {
            -1
        }
    }
}

pub proof fn lemma_first_containing(ms: Seq<Rect>, x: int, y: int)
    ensures
        -1 <= first_containing(ms, x, y) < ms.len(),
        first_containing(ms, x, y) >= 0 ==> ms[first_containing(ms, x, y)].spec_contains(x, y),
        forall|j: int| 0 <= j < ms.len() && (j < first_containing(ms, x, y) || first_containing(ms, x, y) < 0)
            ==> !(#[trigger] ms[j]).spec_contains(x, y),
    decreases ms.len(),
{
    if ms.len() > 0 {
        lemma_first_containing(ms.drop_last(), x, y);
        assert forall|j: int| 0 <= j < ms.len() - 1 implies ms.drop_last()[j] == ms[j] by {}
    }
}

fn sat_add_exec(a: i64, b: i64) -> (r: i64)
    ensures
        r == sat_add(a as int, b as int),
{
    let s: i128 = a as i128 + b as i128;
    if s > i64::MAX as i128 {
        i64::MAX
    } else if s < i64::MIN as i128 {
        i64::MIN
    } else {
        s as i64
    }
}

fn nudge_delta_exec(step: i64, k: LogicalKey) -> (r: Option<(i64, i64)>)
    ensures
        r == nudge_delta(step, k),
{
    let back: i64 = if step == i64::MIN { i64::MAX } else { -step };
    match k {
        LogicalKey::H | LogicalKey::A => Some((back, 0)),
        LogicalKey::J | LogicalKey::S => Some((0, step)),
        LogicalKey::K | LogicalKey::W => Some((0, back)),
        LogicalKey::L | LogicalKey::D => Some((step, 0)),
        _ => None,
    }
}

fn contains_key(keys: &Vec<LogicalKey>, k: LogicalKey) -> (r: bool)
    ensures
        r == keys@.contains(k),
{
    let found = find_last(keys, k);
    proof {
        lemma_last_index(keys@, k);
    }
    found.is_some()
}

/// Grid navigation over the monitors: a simple `rows` x `cols` grid chosen in
/// two levels, or the dense two-letter outer grid with a nested subgrid, then
/// an optional nudge of the chosen point before it is committed.
#[derive(Debug)]
pub struct GridNavigator {
    monitors: Vec<Rect>,
    active_monitor: usize,
    config: GridConfig,
    state: GridState,
    column: Option<usize>,
    row: Option<usize>,
    held: Vec<LogicalKey>,
}

pub open spec fn opt_int(o: Option<usize>) -> Option<int> {
    match o {
        Some(v) => Some(v as int),
        None => None,
    }
}

impl View for GridNavigator {
    type V = NavView;

    closed spec fn view(&self) -> NavView {
        NavView {
            monitors: self.monitors@,
            active: self.active_monitor as int,
            config: self.config,
            state: self.state,
            column: opt_int(self.column),
            row: opt_int(self.row),
            held: self.held@,
        }
    }
}

/// A freshly built navigator: inactive, on the monitor under the cursor.
pub open spec fn fresh_nav(monitors: Seq<Rect>, cursor: (i64, i64), config: GridConfig) -> NavView {
    let f = first_containing(monitors, cursor.0 as int, cursor.1 as int);
    NavView {
        monitors,
        active: if f >= 0 { f } else { 0 },
        config,
        state: GridState::Inactive,
        column: None,
        row: None,
        held: Seq::empty(),
    }
}

/// Each key handling step keeps the navigator well formed.
pub proof fn lemma_press_keeps_wf(v: NavView, k: LogicalKey)
    requires
        v.wf(),
    ensures
        v.press(k).0.wf(),
        v.release(k).0.wf(),
        v.activated().wf(),
        v.deactivated().wf(),
{
    let cfg = v.config;
    lemma_screen_area(v);
    match v.state {
        GridState::Level1 => {
            if cfg.dense {
                match v.column {
                    Some(c) => {
                        let r = last_index(cfg.row_keys@, k);
                        lemma_last_index(cfg.row_keys@, k);
                        if r >= 0 {
                            lemma_screen_subcell(v.area(), r, c, v.bank_rows(), v.bank_cols());
                        }
                    }
                    None => {
                        lemma_last_index(cfg.column_keys@, k);
                    }
                }
            } else {
                match key_cell(cfg, k) {
                    Some((r, c)) => {
                        lemma_last_index(cfg.keys@, k);
                        lemma_cell_bounds(last_index(cfg.keys@, k), cfg.rows as int, cfg.cols as int);
                        lemma_screen_subcell(v.area(), r, c, cfg.rows as int, cfg.cols as int);
                    }
                    None => {}
                }
            }
        }
        _ => {}
    }
}

proof fn lemma_screen_area(v: NavView)
    requires
        v.wf(),
    ensures
        v.area().screen(),
{
    if 0 <= v.active < v.monitors.len() {
        assert(v.monitors[v.active].screen());
    }
}

impl GridNavigator {
    /// A single-monitor grid over a `screen_width` x `screen_height` screen.
    pub fn new(screen_width: i64, screen_height: i64, config: GridConfig) -> (nav: Self)
        requires
            0 <= screen_width,
            0 <= screen_height,
            config_ok(config),
        ensures
            nav@ == fresh_nav(seq![Rect { x: 0, y: 0, width: screen_width, height: screen_height }], (0, 0), config),
            nav@.wf(),
    {
        let mut monitors: Vec<Rect> = Vec::new();
        monitors.push(Rect::new(0, 0, screen_width, screen_height));
        proof {
            assert(monitors@ =~= seq![Rect { x: 0, y: 0, width: screen_width, height: screen_height }]);
        }
        Self::with_monitors(monitors, (0, 0), config)
    }

    /// Grid over the monitor holding `cursor`; falls back to the first monitor.
    pub fn with_monitors(monitors: Vec<Rect>, cursor: (i64, i64), config: GridConfig) -> (nav: Self)
        requires
            forall|i: int| 0 <= i < monitors@.len() ==> #[trigger] monitors@[i].screen(),
            config_ok(config),
        ensures
            nav@ == fresh_nav(monitors@, cursor, config),
            nav@.wf(),
    {
        let mut nav = GridNavigator {
            monitors,
            active_monitor: 0,
            config,
            state: GridState::Inactive,
            column: None,
            row: None,
            held: Vec::new(),
        };
        nav.select_monitor_at(cursor);
        nav
    }

    pub fn active_monitor(&self) -> (r: Rect)
        ensures
            r == self@.area(),
    {
        if self.active_monitor < self.monitors.len() {
            self.monitors[self.active_monitor]
        } else {
            Rect::new(0, 0, 0, 0)
        }
    }

    /// Selects the first monitor containing `cursor`; returns whether one does.
    pub fn select_monitor_at(&mut self, cursor: (i64, i64)) -> (found: bool)
        ensures
            found == (first_containing(old(self)@.monitors, cursor.0 as int, cursor.1 as int) >= 0),
            final(self)@ == (NavView {
                active: if found {
                    first_containing(old(self)@.monitors, cursor.0 as int, cursor.1 as int)
                } else {
                    old(self)@.active
                },
                ..old(self)@
            }),
    {
        let ghost ms = self.monitors@;
        proof {
            lemma_first_containing(ms, cursor.0 as int, cursor.1 as int);
        }
        let mut i: usize = 0;
        while i < self.monitors.len()
            invariant
                i <= self.monitors.len(),
                self.monitors@ == ms,
                ms == old(self)@.monitors,
                self@ == old(self)@,
                forall|j: int| 0 <= j < i ==> !(#[trigger] ms[j]).spec_contains(cursor.0 as int, cursor.1 as int),
            decreases self.monitors.len() - i,
        {
            if self.monitors[i].contains(cursor.0, cursor.1) {
                proof {
                    lemma_first_containing(ms, cursor.0 as int, cursor.1 as int);
                    let f = first_containing(ms, cursor.0 as int, cursor.1 as int);
                    if f >= 0 && f < i {
                        assert(!ms[f].spec_contains(cursor.0 as int, cursor.1 as int));
                    }
                    if f > i || f < 0 {
                        assert(!ms[i as int].spec_contains(cursor.0 as int, cursor.1 as int));
                    }
                }
                self.active_monitor = i;
                return true;
            }
            i = i + 1;
        }
        proof {
            lemma_first_containing(ms, cursor.0 as int, cursor.1 as int);
            let f = first_containing(ms, cursor.0 as int, cursor.1 as int);
            if f >= 0 {
                assert(!ms[f].spec_contains(cursor.0 as int, cursor.1 as int));
            }
        }
        false
    }

    pub fn state(&self) -> (s: GridState)
        ensures
            s == self@.state,
    {
        self.state
    }

    /// Shows the level 1 grid with nothing chosen yet.
    pub fn activate(&mut self) -> (a: GridNavAction)
        ensures
            a == GridNavAction::ShowOverlayLevel1,
            final(self)@ == old(self)@.activated(),
    {
        self.state = GridState::Level1;
        self.column = None;
        self.row = None;
        self.held = Vec::new();
        proof {
            assert(self@.held =~= Seq::<LogicalKey>::empty());
        }
        GridNavAction::ShowOverlayLevel1
    }

    /// Re-selects the monitor under the cursor, then activates the grid.
    pub fn activate_at(&mut self, cursor: (i64, i64)) -> (a: GridNavAction)
        ensures
            a == GridNavAction::ShowOverlayLevel1,
            final(self)@ == (NavView {
                active: if first_containing(old(self)@.monitors, cursor.0 as int, cursor.1 as int) >= 0 {
                    first_containing(old(self)@.monitors, cursor.0 as int, cursor.1 as int)
                } else {
                    old(self)@.active
                },
                ..old(self)@
            }).activated(),
    {
        self.select_monitor_at(cursor);
        self.activate()
    }

    /// The cell the current level 2 selection or nudge sits inside.
    pub fn active_cell(&self) -> (r: Option<Rect>)
        ensures
            r == match self@.state {
                GridState::Level2 { parent } => Some(parent),
                GridState::Nudging { parent, .. } => Some(parent),
                _ => None::<Rect>,
            },
    {
        match self.state {
            GridState::Level2 { parent } => Some(parent),
            GridState::Nudging { parent, .. } => Some(parent),
            _ => None,
        }
    }

    pub fn deactivate(&mut self) -> (a: GridNavAction)
        ensures
            a == GridNavAction::HideOverlay,
            final(self)@ == old(self)@.deactivated(),
    {
        self.state = GridState::Inactive;
        self.column = None;
        self.row = None;
        GridNavAction::HideOverlay
    }
}


impl GridNavigator {
    fn level2_cells_exec(&self, parent: Rect) -> (v: Vec<OverlayCell>)
        requires
            self@.wf(),
            parent.screen(),
        ensures
            v@.map_values(|c: OverlayCell| c@) == self@.level2_cells(parent),
    {
        let nested = key_cells_exec(parent, &self.config);
        if !self.config.dense {
            return nested;
        }
        proof {
            lemma_screen_area(self@);
        }
        let mut cells = bank_cells_exec(self.active_monitor(), &self.config);
        let ghost outer0 = cells@.map_values(|c: OverlayCell| c@);
        match (self.row, self.column) {
            (Some(r), Some(c)) => {
                let cols = self.config.column_keys.len();
                let n = cells.len();
                proof {
                    assert(r * cols + c < self@.bank_rows() * self@.bank_cols()) by (nonlinear_arith)
                        requires
                            r < self@.bank_rows(),
                            c < cols,
                            cols == self@.bank_cols(),
                    ;
                    assert(cells@.len() == outer0.len());
                    assert(n == self@.bank_rows() * self@.bank_cols());
                    assert(r * cols <= r * cols + c);
                }
                let k = r * cols + c;
                cells.remove(k);
                proof {
                    assert(cells@.map_values(|x: OverlayCell| x@) =~= outer0.remove(k as int));
                }
            }
            _ => {}
        }
        let ghost outer = cells@.map_values(|c: OverlayCell| c@);
        let ghost n0 = cells@.len();
        let mut i: usize = 0;
        while i < nested.len()
            invariant
                i <= nested.len(),
                cells@.len() == n0 + i,
                forall|j: int| 0 <= j < n0 ==> #[trigger] cells@[j]@ == outer[j],
                forall|j: int| 0 <= j < i ==> cells@[n0 + j]@ == nested@[j]@,
                outer.len() == n0,
            decreases nested.len() - i,
        {
            cells.push(nested[i].duplicate());
            i = i + 1;
        }
        proof {
            assert(cells@.map_values(|c: OverlayCell| c@) =~= outer + nested@.map_values(|c: OverlayCell| c@));
        }
        cells
    }

    /// Overlay description for the current level, or none when inactive.
    pub fn overlay_frame(&self) -> (f: Option<OverlayFrame>)
        requires
            self@.wf(),
        ensures
            opt_frame_view(f) == self@.frame(),
    {
        proof {
            lemma_screen_area(self@);
        }
        match self.state {
            GridState::Inactive => None,
            GridState::Level1 => {
                let cells = if self.config.dense {
                    match self.column {
                        Some(c) => column_cells_exec(self.active_monitor(), &self.config, c),
                        None => bank_cells_exec(self.active_monitor(), &self.config),
                    }
                } else {
                    key_cells_exec(self.active_monitor(), &self.config)
                };
                Some(OverlayFrame { level: 1, cells, highlight: None, pointer: None })
            }
            GridState::Level2 { parent } => {
                let cells = self.level2_cells_exec(parent);
                proof {
                    lemma_screen_center(parent);
                }
                let pointer = if self.config.dense { Some(parent.center()) } else { None };
                Some(OverlayFrame { level: 2, cells, highlight: Some(parent), pointer })
            }
            GridState::Nudging { parent, current_pos, held_key } => {
                let cells = self.level2_cells_exec(parent);
                let highlight = match cell_of(&self.config, held_key) {
                    Some((r, c)) => {
                        proof {
                            lemma_last_index(self.config.keys@, held_key);
                            lemma_cell_bounds(last_index(self.config.keys@, held_key), self.config.rows as int, self.config.cols as int);
                            lemma_screen_subcell(parent, r as int, c as int, self.config.rows as int, self.config.cols as int);
                        }
                        Some(parent.subcell(r, c, self.config.rows, self.config.cols))
                    }
                    None => Some(parent),
                };
                Some(OverlayFrame { level: 2, cells, highlight, pointer: Some(current_pos) })
            }
        }
    }

    fn dense_level1(&mut self, key: LogicalKey) -> (a: Option<GridNavAction>)
        requires
            old(self)@.wf(),
            old(self)@.state is Level1,
        ensures
            final(self)@ == old(self)@.dense_level1(key).0,
            a == old(self)@.dense_level1(key).1,
    {
        proof {
            lemma_screen_area(self@);
        }
        match self.column {
            None => {
                match find_last(&self.config.column_keys, key) {
                    Some(c) => {
                        self.column = Some(c);
                        Some(GridNavAction::ShowOverlayLevel1)
                    }
                    None => {
                        if key == LogicalKey::Esc {
                            Some(self.deactivate())
                        } else {
                            None
                        }
                    }
                }
            }
            Some(c) => {
                match find_last(&self.config.row_keys, key) {
                    Some(r) => {
                        proof {
                            lemma_last_index(self.config.row_keys@, key);
                            lemma_screen_subcell(self@.area(), r as int, c as int, self@.bank_rows(), self@.bank_cols());
                        }
                        let area = self.active_monitor();
                        let parent = area.subcell(
                            r as u32,
                            c as u32,
                            self.config.row_keys.len() as u32,
                            self.config.column_keys.len() as u32,
                        );
                        proof {
                            lemma_screen_center(parent);
                        }
                        let p = parent.center();
                        self.state = GridState::Level2 { parent };
                        self.row = Some(r);
                        Some(GridNavAction::MoveCursorTo(p.0, p.1))
                    }
                    None => {
                        if key == LogicalKey::Backspace {
                            self.column = None;
                            Some(GridNavAction::ShowOverlayLevel1)
                        } else if key == LogicalKey::Esc {
                            Some(self.deactivate())
                        } else {
                            None
                        }
                    }
                }
            }
        }
    }

    fn press_step(&mut self, key: LogicalKey) -> (a: Option<GridNavAction>)
        requires
            old(self)@.wf(),
        ensures
            final(self)@ == old(self)@.press_step(key).0,
            a == old(self)@.press_step(key).1,
    {
        proof {
            lemma_screen_area(self@);
        }
        let rows = self.config.rows;
        let cols = self.config.cols;
        match self.state {
            GridState::Inactive => None,
            GridState::Level1 => {
                if self.config.dense {
                    return self.dense_level1(key);
                }
                match cell_of(&self.config, key) {
                    Some((r, c)) => {
                        proof {
                            lemma_last_index(self.config.keys@, key);
                            lemma_cell_bounds(last_index(self.config.keys@, key), rows as int, cols as int);
                            lemma_screen_subcell(self@.area(), r as int, c as int, rows as int, cols as int);
                        }
                        let cell = self.active_monitor().subcell(r, c, rows, cols);
                        self.state = GridState::Level2 { parent: cell };
                        Some(GridNavAction::ShowOverlayLevel2(cell))
                    }
                    None => {
                        if key == LogicalKey::Esc {
                            Some(self.deactivate())
                        } else {
                            None
                        }
                    }
                }
            }
            GridState::Level2 { parent } => {
                match cell_of(&self.config, key) {
                    Some((r, c)) => {
                        proof {
                            lemma_last_index(self.config.keys@, key);
                            lemma_cell_bounds(last_index(self.config.keys@, key), rows as int, cols as int);
                            lemma_screen_subcell(parent, r as int, c as int, rows as int, cols as int);
                        }
                        let sub = parent.subcell(r, c, rows, cols);
                        proof {
                            lemma_screen_center(sub);
                        }
                        let t = sub.center();
                        if self.config.nudge_enabled {
                            self.state = GridState::Nudging { parent, current_pos: t, held_key: key };
                            Some(GridNavAction::MoveCursorTo(t.0, t.1))
                        } else if self.config.auto_free_mode_after_move {
                            self.deactivate();
                            Some(GridNavAction::MoveCursorTo(t.0, t.1))
                        } else {
                            self.deactivate();
                            Some(GridNavAction::ClickAt(t.0, t.1))
                        }
                    }
                    None => {
                        if key == LogicalKey::Space {
                            proof {
                                lemma_screen_center(parent);
                            }
                            let p = parent.center();
                            self.deactivate();
                            Some(GridNavAction::ClickAt(p.0, p.1))
                        } else if key == LogicalKey::Backspace {
                            self.state = GridState::Level1;
                            self.row = None;
                            Some(GridNavAction::ShowOverlayLevel1)
                        } else if key == LogicalKey::Esc {
                            Some(self.deactivate())
                        } else {
                            None
                        }
                    }
                }
            }
            GridState::Nudging { parent, current_pos, held_key } => {
                match nudge_delta_exec(self.config.nudge_step_px, key) {
                    Some((dx, dy)) => {
                        let pos = (sat_add_exec(current_pos.0, dx), sat_add_exec(current_pos.1, dy));
                        self.state = GridState::Nudging { parent, current_pos: pos, held_key };
                        Some(GridNavAction::Nudge(dx, dy))
                    }
                    None => {
                        if key == LogicalKey::Backspace {
                            self.state = GridState::Level2 { parent };
                            Some(GridNavAction::ShowOverlayLevel2(parent))
                        } else if key == LogicalKey::Esc {
                            Some(self.deactivate())
                        } else {
                            None
                        }
                    }
                }
            }
        }
    }

    /// Handles a key press: chooses a cell, narrows, nudges, commits, or
    /// cancels, as `NavView::press` describes.
    pub fn on_key_press(&mut self, key: LogicalKey) -> (a: Option<GridNavAction>)
        requires
            old(self)@.wf(),
        ensures
            final(self)@ == old(self)@.press(key).0,
            a == old(self)@.press(key).1,
            final(self)@.wf(),
    {
        proof {
            lemma_press_keeps_wf(self@, key);
        }
        if let GridState::Inactive = self.state {
            return None;
        }
        if self.config.dense {
            if contains_key(&self.held, key) {
                return None;
            }
            self.held.push(key);
        }
        self.press_step(key)
    }

    /// Handles a key release: releasing the key that chose the nudged point
    /// commits it.
    pub fn on_key_release(&mut self, key: LogicalKey) -> (a: Option<GridNavAction>)
        requires
            old(self)@.wf(),
        ensures
            final(self)@ == old(self)@.release(key).0,
            a == old(self)@.release(key).1,
            final(self)@.wf(),
    {
        proof {
            lemma_press_keeps_wf(self@, key);
        }
        if self.config.dense {
            if let Some(i) = find_last(&self.held, key) {
                proof {
                    lemma_last_index(self.held@, key);
                }
                self.held.remove(i);
            }
        }
        match self.state {
            GridState::Nudging { current_pos, held_key, .. } => {
                if key == held_key {
                    self.deactivate();
                    if self.config.drag_after_select {
                        Some(GridNavAction::StartDrag(current_pos.0, current_pos.1))
                    } else if self.config.auto_free_mode_after_move {
                        Some(GridNavAction::EnterFreeMode)
                    } else {
                        Some(GridNavAction::ClickAt(current_pos.0, current_pos.1))
                    }
                } else {
                    None
                }
            }
            _ => None,
        }
    }
}


/// The four nudge keys move in four directions by the nudge step: L (or D)
/// right, H (or A) left, J (or S) down, K (or W) up; opposite keys cancel.
pub proof fn law_nudge_directions(step: i64)
    requires
        0 < step,
    ensures
        nudge_delta(step, LogicalKey::L) == Some((step, 0i64)),
        nudge_delta(step, LogicalKey::J) == Some((0i64, step)),
        nudge_delta(step, LogicalKey::H) == Some(((-step) as i64, 0i64)),
        nudge_delta(step, LogicalKey::K) == Some((0i64, (-step) as i64)),
        nudge_delta(step, LogicalKey::D) == nudge_delta(step, LogicalKey::L),
        nudge_delta(step, LogicalKey::A) == nudge_delta(step, LogicalKey::H),
        nudge_delta(step, LogicalKey::S) == nudge_delta(step, LogicalKey::J),
        nudge_delta(step, LogicalKey::W) == nudge_delta(step, LogicalKey::K),
{
}

/// While nudging, a nudge key moves the pending point by the nudge step in
/// its direction and reports that offset: L or D to the right, H or A to the
/// left, J or S down, K or W up.
pub proof fn law_nudge_keys_move_the_point(v: NavView, k: LogicalKey)
    requires
        v.state is Nudging,
        !(v.config.dense && v.held.contains(k)),
        0 < v.config.nudge_step_px,
        i64::MIN + v.config.nudge_step_px <= v.state->current_pos.0 <= i64::MAX - v.config.nudge_step_px,
        i64::MIN + v.config.nudge_step_px <= v.state->current_pos.1 <= i64::MAX - v.config.nudge_step_px,
    ensures
        ({
            let s = v.config.nudge_step_px;
            let p = v.state->current_pos;
            let (w, a) = v.press(k);
            &&& (k == LogicalKey::L || k == LogicalKey::D) ==> a == Some(GridNavAction::Nudge(s, 0))
                && w.state->current_pos == ((p.0 + s) as i64, p.1)
            &&& (k == LogicalKey::H || k == LogicalKey::A) ==> a == Some(GridNavAction::Nudge((-s) as i64, 0))
                && w.state->current_pos == ((p.0 - s) as i64, p.1)
            &&& (k == LogicalKey::J || k == LogicalKey::S) ==> a == Some(GridNavAction::Nudge(0, s))
                && w.state->current_pos == (p.0, (p.1 + s) as i64)
            &&& (k == LogicalKey::K || k == LogicalKey::W) ==> a == Some(GridNavAction::Nudge(0, (-s) as i64))
                && w.state->current_pos == (p.0, (p.1 - s) as i64)
        }),
{
}

/// While nudging, a press of L and then of H brings the pending point back
/// where it was.
pub proof fn law_opposite_nudges_cancel(v: NavView)
    requires
        v.state is Nudging,
        !v.config.dense || (!v.held.contains(LogicalKey::L) && !v.held.contains(LogicalKey::H)),
        0 < v.config.nudge_step_px,
        i64::MIN + v.config.nudge_step_px <= v.state->current_pos.0 <= i64::MAX - v.config.nudge_step_px,
        i64::MIN + v.config.nudge_step_px <= v.state->current_pos.1 <= i64::MAX - v.config.nudge_step_px,
    ensures
        v.press(LogicalKey::L).0.press(LogicalKey::H).0.state->current_pos == v.state->current_pos,
{
    let w = v.press(LogicalKey::L).0;
    if v.config.dense {
        assert(!w.held.contains(LogicalKey::H)) by {
            assert(w.held == v.held.push(LogicalKey::L));
            if w.held.contains(LogicalKey::H) {
                let i = choose|i: int| 0 <= i < w.held.len() && w.held[i] == LogicalKey::H;
                if i < v.held.len() {
                    assert(v.held[i] == LogicalKey::H);
                }
            }
        }
    }
}

} // verus!
