//! Clustering of editor windows into columns.

use vstd::prelude::*;
use crate::width::{
    current_symbol_width, desired_symbol_width, desired_symbols, max_end, symbols_to_pixels,
    to_pixels, Ratio, DEFAULT_WIDTH_KOEFF_DENOM, DEFAULT_WIDTH_KOEFF_NUMER,
    PIXELS_PER_SYMBOL_DENOM, PIXELS_PER_SYMBOL_NUMER,
};

verus! {

/// Horizontal placement of one editor window, as the editor reports it.
#[derive(Clone, Copy, Debug, PartialEq, Eq)]
pub struct WindowGeometry {
    pub horizontal_start: i64,
    pub width: i64,
    pub text_wrap_column: i64,
}

/// A horizontal band of the screen taken by one or more stacked windows.
#[derive(Clone, Copy, Debug, PartialEq, Eq)]
pub struct WinColumn {
    pub start: i64,
    pub end: i64,
    pub text_wrap_column: i64,
}

/// How a candidate column relates to one column already placed.
#[derive(Clone, Copy, Debug, PartialEq, Eq)]
pub enum Placement {
    /// The placed column ends before the candidate starts: look further.
    Continue,
    /// The candidate ends before the placed column starts: insert it here.
    InsertBefore,
    /// Same left edge: merge the candidate into the placed column.
    MergeSameStart,
    /// Same right edge: the placed column yields space; insert after it.
    ShareEnd,
    /// The candidate starts inside the placed column and reaches beyond it.
    SplitAfter,
    /// The placed column starts inside the candidate and reaches beyond it.
    TrimBefore,
    /// Irregular overlap: the candidate is dropped.
    Drop,
}

/// Text-wrap column of a window whose buffer does not give one.
pub const DEFAULT_TEXT_WRAP_COLUMN: i64 = 80;

/// The text-wrap column that a buffer's setting gives, or the default
/// where the setting is missing or unreadable.
pub fn text_wrap_or_default(setting: Option<i64>) -> (r: i64)
    ensures
        r == match setting {
            Some(t) => t,
            None => DEFAULT_TEXT_WRAP_COLUMN,
        },
{
    match setting {
        Some(t) => t,
        None => DEFAULT_TEXT_WRAP_COLUMN,
    }
}

/// A window's geometry fits the machine integers once turned into a column.
pub open spec fn geometry_fits(w: WindowGeometry) -> bool {
    i64::MIN <= w.horizontal_start + w.width <= i64::MAX
}

/// The column that a window occupies: from its start, `width` wide.
pub open spec fn column_of(w: WindowGeometry) -> WinColumn {
    WinColumn {
        start: w.horizontal_start,
        end: (w.horizontal_start + w.width) as i64,
        text_wrap_column: w.text_wrap_column,
    }
}

/// The smaller of two edges.
pub open spec fn min_i64(a: i64, b: i64) -> i64 {
    if a <= b { a } else { b }
}

/// The larger of two settings.
pub open spec fn max_i64(a: i64, b: i64) -> i64 {
    if a >= b { a } else { b }
}

/// The decision rule between a placed column `c` and a candidate `n`,
/// checked in this order.
pub open spec fn placement(c: WinColumn, n: WinColumn) -> Placement {
    if c.end <= n.start {
        Placement::Continue
    } else if n.end <= c.start {
        Placement::InsertBefore
    } else if c.start == n.start {
        Placement::MergeSameStart
    } else if c.end == n.end {
        Placement::ShareEnd
    } else if c.start < n.start && n.end > c.end {
        Placement::SplitAfter
    } else if n.start < c.start && c.end > n.end {
        Placement::TrimBefore
    } else {
        Placement::Drop
    }
}

/// Placing candidate `n` into `cols`, scanning from index `i`.
pub open spec fn place_from(cols: Seq<WinColumn>, n: WinColumn, i: int) -> Seq<WinColumn>
    decreases cols.len() - i,
{
    if i < 0 || i >= cols.len() {
        cols.push(n)
    } else {
        let c = cols[i];
        match placement(c, n) {
            Placement::Continue => place_from(cols, n, i + 1),
            Placement::InsertBefore => cols.insert(i, n),
            Placement::MergeSameStart => cols.update(
                i,
                WinColumn {
                    start: c.start,
                    end: min_i64(n.end, c.end),
                    text_wrap_column: max_i64(c.text_wrap_column, n.text_wrap_column),
                },
            ),
            Placement::ShareEnd => cols.update(
                i,
                WinColumn { end: min_i64(c.end, n.start), ..c },
            ).insert(i + 1, n),
            Placement::SplitAfter => cols.update(i, WinColumn { end: n.start, ..c }).insert(
                i + 1,
                n,
            ),
            Placement::TrimBefore => cols.insert(i, WinColumn { end: c.start, ..n }),
            Placement::Drop => cols,
        }
    }
}

/// Placing candidate `n` into `cols`, scanning from the left.
pub open spec fn place(cols: Seq<WinColumn>, n: WinColumn) -> Seq<WinColumn> {
    place_from(cols, n, 0)
}

/// The columns that clustering makes of `ws`, taken in order.
pub open spec fn cluster(ws: Seq<WindowGeometry>) -> Seq<WinColumn>
    decreases ws.len(),
{
    if ws.len() == 0 {
        Seq::empty()
    } else {
        place(cluster(ws.drop_last()), column_of(ws.last()))
    }
}

/// Decides how candidate `n` relates to the placed column `c`.
pub fn decide_placement(c: &WinColumn, n: &WinColumn) -> (r: Placement)
    ensures
        r == placement(*c, *n),
{
    if c.end <= n.start {
        Placement::Continue
    } else if n.end <= c.start {
        Placement::InsertBefore
    } else if c.start == n.start {
        Placement::MergeSameStart
    } else if c.end == n.end {
        Placement::ShareEnd
    } else if c.start < n.start && n.end > c.end {
        Placement::SplitAfter
    } else if n.start < c.start && c.end > n.end {
        Placement::TrimBefore
    } else {
        Placement::Drop
    }
}

impl WinColumn {
    /// The column that one window occupies.
    pub fn from_window(w: &WindowGeometry) -> (r: WinColumn)
        requires
            geometry_fits(*w),
        ensures
            r == column_of(*w),
    {
        WinColumn {
            start: w.horizontal_start,
            end: w.horizontal_start + w.width,
            text_wrap_column: w.text_wrap_column,
        }
    }
}

/// Places one candidate column among `columns`.
pub fn add_to_columns(columns: &mut Vec<WinColumn>, n: WinColumn)
    ensures
        final(columns)@ == place(old(columns)@, n),
{
    let mut i: usize = 0;
    while i < columns.len()
        invariant
            0 <= i <= columns.len(),
            columns@ == old(columns)@,
            place_from(columns@, n, i as int) == place(columns@, n),
        decreases columns.len() - i,
    {
        let c = columns[i];
        match decide_placement(&c, &n) {
            Placement::Continue => {
                i = i + 1;
            },
            Placement::InsertBefore => {
                columns.insert(i, n);
                return;
            },
            Placement::MergeSameStart => {
                let end = if n.end <= c.end { n.end } else { c.end };
                let tw = if c.text_wrap_column >= n.text_wrap_column {
                    c.text_wrap_column
                } else {
                    n.text_wrap_column
                };
                columns.set(i, WinColumn { start: c.start, end, text_wrap_column: tw });
                return;
            },
            Placement::ShareEnd => {
                let end = if c.end <= n.start { c.end } else { n.start };
                columns.set(i, WinColumn { end, ..c });
                columns.insert(i + 1, n);
                return;
            },
            Placement::SplitAfter => {
                columns.set(i, WinColumn { end: n.start, ..c });
                columns.insert(i + 1, n);
                return;
            },
            Placement::TrimBefore => {
                columns.insert(i, WinColumn { end: c.start, ..n });
                return;
            },
            Placement::Drop => {
                return;
            },
        }
    }
    columns.push(n);
}

/// Clusters the windows, in the order given, into columns.
pub fn calculate_columns(wins: &Vec<WindowGeometry>) -> (columns: Vec<WinColumn>)
    requires
        forall|k: int| 0 <= k < wins@.len() ==> geometry_fits(#[trigger] wins@[k]),
    ensures
        columns@ == cluster(wins@),
{
    let mut columns: Vec<WinColumn> = Vec::new();
    let mut k: usize = 0;
    while k < wins.len()
        invariant
            0 <= k <= wins@.len(),
            forall|j: int| 0 <= j < wins@.len() ==> geometry_fits(#[trigger] wins@[j]),
            columns@ == cluster(wins@.subrange(0, k as int)),
        decreases wins.len() - k,
    {
        let column = WinColumn::from_window(&wins[k]);
        add_to_columns(&mut columns, column);
        proof {
            let next = wins@.subrange(0, k + 1);
            assert(next.drop_last() =~= wins@.subrange(0, k as int));
        }
        k = k + 1;
    }
    proof {
        assert(wins@.subrange(0, wins@.len() as int) =~= wins@);
    }
    columns
}


/// The two columns do not overlap.
pub open spec fn disjoint(a: WinColumn, b: WinColumn) -> bool {
    a.end <= b.start || b.end <= a.start
}

/// No two of the windows overlap horizontally.
pub open spec fn pairwise_disjoint(ws: Seq<WindowGeometry>) -> bool {
    forall|i: int, j: int|
        0 <= i < ws.len() && 0 <= j < ws.len() && i != j ==> disjoint(
            column_of(#[trigger] ws[i]),
            column_of(#[trigger] ws[j]),
        )
}

/// The windows' own columns, one for each, in order.
pub open spec fn columns_of(ws: Seq<WindowGeometry>) -> Seq<WinColumn> {
    ws.map_values(|w: WindowGeometry| column_of(w))
}

/// A finished column set: each column non-empty, left to right, no overlap.
pub open spec fn well_formed_columns(cols: Seq<WinColumn>) -> bool {
    &&& forall|i: int| 0 <= i < cols.len() ==> (#[trigger] cols[i]).start < cols[i].end
    &&& forall|i: int, j: int|
        0 <= i < j < cols.len() ==> (#[trigger] cols[i]).end <= (#[trigger] cols[j]).start
}

/// The window that a column stands for when it is clustered again.
pub open spec fn window_of(c: WinColumn) -> WindowGeometry {
    WindowGeometry {
        horizontal_start: c.start,
        width: (c.end - c.start) as i64,
        text_wrap_column: c.text_wrap_column,
    }
}

/// The columns taken as windows, one for each, in order.
pub open spec fn windows_of(cols: Seq<WinColumn>) -> Seq<WindowGeometry> {
    cols.map_values(|c: WinColumn| window_of(c))
}

proof fn lemma_place_disjoint(cols: Seq<WinColumn>, n: WinColumn, i: int)
    requires
        0 <= i <= cols.len(),
        forall|k: int| 0 <= k < cols.len() ==> disjoint(#[trigger] cols[k], n),
    ensures
        exists|j: int| i <= j <= cols.len() && place_from(cols, n, i) == cols.insert(j, n),
    decreases cols.len() - i,
{
    if i == cols.len() {
        assert(place_from(cols, n, i) =~= cols.insert(i, n));
    } else {
        assert(disjoint(cols[i], n));
        if placement(cols[i], n) == Placement::Continue {
            lemma_place_disjoint(cols, n, i + 1);
            let j = choose|j: int|
                i + 1 <= j <= cols.len() && place_from(cols, n, i + 1) == cols.insert(j, n);
            assert(place_from(cols, n, i) == cols.insert(j, n));
        } else {
            assert(place_from(cols, n, i) == cols.insert(i, n));
        }
    }
}

/// Windows that do not overlap each become one column of their own, with
/// geometry and text-wrap column unchanged: the columns are exactly the
/// windows' columns, counted with multiplicity.
pub proof fn lemma_disjoint_windows_kept(ws: Seq<WindowGeometry>)
    requires
        pairwise_disjoint(ws),
    ensures
        cluster(ws).len() == ws.len(),
        cluster(ws).to_multiset() == columns_of(ws).to_multiset(),
    decreases ws.len(),
{
    broadcast use {vstd::seq_lib::to_multiset_insert, vstd::seq_lib::to_multiset_build, vstd::seq_lib::to_multiset_contains, vstd::seq_lib::to_multiset_len};

    if ws.len() == 0 {
        assert(columns_of(ws) =~= Seq::<WinColumn>::empty());
    } else {
        let prev = ws.drop_last();
        let w = ws.last();
        let n = column_of(w);
        assert(pairwise_disjoint(prev)) by {
            assert forall|i: int, j: int|
                0 <= i < prev.len() && 0 <= j < prev.len() && i != j implies disjoint(
                column_of(#[trigger] prev[i]),
                column_of(#[trigger] prev[j]),
            ) by {
                assert(prev[i] == ws[i] && prev[j] == ws[j]);
            }
        }
        lemma_disjoint_windows_kept(prev);
        let cols = cluster(prev);
        assert(columns_of(ws) =~= columns_of(prev).push(n));
        assert forall|k: int| 0 <= k < cols.len() implies disjoint(#[trigger] cols[k], n) by {
            let c = cols[k];
            assert(cols.contains(c));
            assert(columns_of(prev).to_multiset().count(c) > 0);
            assert(columns_of(prev).contains(c));
            let m = choose|m: int| 0 <= m < columns_of(prev).len() && columns_of(prev)[m] == c;
            assert(prev[m] == ws[m]);
            assert(disjoint(column_of(ws[m]), column_of(ws[ws.len() - 1])));
        }
        lemma_place_disjoint(cols, n, 0);
        let j = choose|j: int| 0 <= j <= cols.len() && place_from(cols, n, 0) == cols.insert(j, n);
        assert(cluster(ws) == cols.insert(j, n));
    }
}

/// Two windows with the same left edge become one column that ends where
/// the narrower ends and wraps text at the wider of the two settings.
pub proof fn lemma_same_start_merges(a: WindowGeometry, b: WindowGeometry)
    requires
        geometry_fits(a),
        geometry_fits(b),
        a.width > 0,
        b.width > 0,
        a.horizontal_start == b.horizontal_start,
    ensures
        cluster(seq![a, b]) == seq![
            WinColumn {
                start: a.horizontal_start,
                end: min_i64(column_of(a).end, column_of(b).end),
                text_wrap_column: max_i64(a.text_wrap_column, b.text_wrap_column),
            },
        ],
{
    let ws = seq![a, b];
    assert(ws.drop_last() =~= seq![a]);
    assert(seq![a].drop_last() =~= Seq::<WindowGeometry>::empty());
    assert(cluster(Seq::<WindowGeometry>::empty()) == Seq::<WinColumn>::empty());
    assert(place_from(Seq::<WinColumn>::empty(), column_of(a), 0) =~= seq![column_of(a)]);
    assert(cluster(seq![a]) =~= seq![column_of(a)]);
    assert(cluster(ws) =~= seq![
        WinColumn {
            start: a.horizontal_start,
            end: min_i64(column_of(b).end, column_of(a).end),
            text_wrap_column: max_i64(a.text_wrap_column, b.text_wrap_column),
        },
    ]);
}

/// Two windows with the same right edge, the wider one first, become two
/// adjacent columns that meet at the narrower window's left edge.
pub proof fn lemma_same_end_splits(a: WindowGeometry, b: WindowGeometry)
    requires
        geometry_fits(a),
        geometry_fits(b),
        a.width > 0,
        b.width > 0,
        column_of(a).end == column_of(b).end,
        a.horizontal_start < b.horizontal_start,
    ensures
        cluster(seq![a, b]) == seq![
            WinColumn {
                start: a.horizontal_start,
                end: b.horizontal_start,
                text_wrap_column: a.text_wrap_column,
            },
            column_of(b),
        ],
{
    let ws = seq![a, b];
    assert(ws.drop_last() =~= seq![a]);
    assert(seq![a].drop_last() =~= Seq::<WindowGeometry>::empty());
    assert(cluster(Seq::<WindowGeometry>::empty()) == Seq::<WinColumn>::empty());
    assert(place_from(Seq::<WinColumn>::empty(), column_of(a), 0) =~= seq![column_of(a)]);
    assert(cluster(seq![a]) =~= seq![column_of(a)]);
    assert(cluster(ws) =~= seq![
        WinColumn {
            start: a.horizontal_start,
            end: b.horizontal_start,
            text_wrap_column: a.text_wrap_column,
        },
        column_of(b),
    ]);
}

proof fn lemma_place_after_all(cols: Seq<WinColumn>, n: WinColumn, i: int)
    requires
        0 <= i <= cols.len(),
        forall|k: int| 0 <= k < cols.len() ==> (#[trigger] cols[k]).end <= n.start,
    ensures
        place_from(cols, n, i) == cols.push(n),
    decreases cols.len() - i,
{
    if i < cols.len() {
        assert(cols[i].end <= n.start);
        lemma_place_after_all(cols, n, i + 1);
    }
}

/// Clustering a finished column set again, each column taken as one
/// window, gives back the same column set.
pub proof fn lemma_recluster_idempotent(cols: Seq<WinColumn>)
    requires
        well_formed_columns(cols),
        forall|i: int| 0 <= i < cols.len() ==> (#[trigger] cols[i]).end - cols[i].start <= i64::MAX,
    ensures
        cluster(windows_of(cols)) == cols,
    decreases cols.len(),
{
    if cols.len() > 0 {
        let prev = cols.drop_last();
        let c = cols.last();
        assert(windows_of(cols).drop_last() =~= windows_of(prev));
        assert(well_formed_columns(prev)) by {
            assert forall|i: int, j: int| 0 <= i < j < prev.len() implies (#[trigger] prev[i]).end
                <= (#[trigger] prev[j]).start by {
                assert(prev[i] == cols[i] && prev[j] == cols[j]);
            }
        }
        lemma_recluster_idempotent(prev);
        assert(windows_of(cols).last() == window_of(c));
        assert(column_of(window_of(c)) == c);
        assert forall|k: int| 0 <= k < prev.len() implies (#[trigger] prev[k]).end <= c.start by {
            assert(prev[k] == cols[k]);
        }
        lemma_place_after_all(prev, c, 0);
        assert(prev.push(c) =~= cols);
    } else {
        assert(windows_of(cols) =~= Seq::<WindowGeometry>::empty());
    }
}


/// The columns of one editor tab and the factor from text-wrap columns to
/// the width that they ask for.
pub struct Vim {
    pub columns: Vec<WinColumn>,
    pub column_width_koeff: Ratio,
}

impl Vim {
    /// Clusters the editor's windows, in the order the editor listed them.
    /// The width factor starts at 1.2.
    pub fn new(wins: &Vec<WindowGeometry>) -> (r: Vim)
        requires
            forall|k: int| 0 <= k < wins@.len() ==> geometry_fits(#[trigger] wins@[k]),
        ensures
            r.columns@ == cluster(wins@),
            r.column_width_koeff == (Ratio {
                numer: DEFAULT_WIDTH_KOEFF_NUMER,
                denom: DEFAULT_WIDTH_KOEFF_DENOM,
            }),
    {
        Vim {
            columns: calculate_columns(wins),
            column_width_koeff: Ratio {
                numer: DEFAULT_WIDTH_KOEFF_NUMER,
                denom: DEFAULT_WIDTH_KOEFF_DENOM,
            },
        }
    }

    pub fn get_columns(&self) -> (r: &Vec<WinColumn>)
        ensures
            r@ == self.columns@,
    {
        &self.columns
    }

    pub fn get_columns_mut(&mut self) -> (r: &mut Vec<WinColumn>)
        ensures
            *r == old(self).columns,
            final(self).columns == *final(r),
            final(self).column_width_koeff == old(self).column_width_koeff,
    {
        &mut self.columns
    }

    pub fn get_num_columns(&self) -> (r: usize)
        ensures
            r == self.columns@.len(),
    {
        self.columns.len()
    }

    /// Estimated pixels per symbol: 8.0093.
    pub fn get_pixels_for_symbol(&self) -> (r: Ratio)
        ensures
            r == (Ratio { numer: PIXELS_PER_SYMBOL_NUMER, denom: PIXELS_PER_SYMBOL_DENOM }),
    {
        Ratio { numer: PIXELS_PER_SYMBOL_NUMER, denom: PIXELS_PER_SYMBOL_DENOM }
    }

    pub fn set_column_width_koeff(&mut self, koef: Ratio)
        requires
            koef.valid(),
        ensures
            final(self).column_width_koeff == koef,
            final(self).columns == old(self).columns,
    {
        self.column_width_koeff = koef;
    }

    pub fn get_column_width_koeff(&self) -> (r: Ratio)
        ensures
            r == self.column_width_koeff,
    {
        self.column_width_koeff
    }

    /// The sum of the columns' text-wrap columns times the width factor,
    /// rounded.
    pub fn get_desired_symbol_width(&self) -> (r: i64)
        requires
            self.column_width_koeff.valid(),
        ensures
            r == desired_symbols(self.columns@, self.column_width_koeff),
    {
        desired_symbol_width(&self.columns, self.column_width_koeff)
    }

    pub fn get_desired_pixel_width(&self) -> (r: i64)
        requires
            self.column_width_koeff.valid(),
        ensures
            r == to_pixels(desired_symbols(self.columns@, self.column_width_koeff)),
    {
        symbols_to_pixels(self.get_desired_symbol_width())
    }

    /// The largest right edge of the columns, 0 if none.
    pub fn get_current_symbol_width(&self) -> (r: i64)
        ensures
            r == max_end(self.columns@),
    {
        current_symbol_width(&self.columns)
    }

    pub fn get_current_pixel_width(&self) -> (r: i64)
        ensures
            r == to_pixels(max_end(self.columns@)),
    {
        symbols_to_pixels(self.get_current_symbol_width())
    }
}

} // verus!
