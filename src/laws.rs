//! Laws of the frame update and of the rasterisation, stated over the models.

use crate::line::LineModel;
use crate::matrix::{cell_at, column_busy, rendered, renders, spawned, LineChar, MatrixModel};
use vstd::prelude::*;

verus! {

/// No stream that survives a frame is retired: every stream of the grid one
/// frame later has some glyph at or above the bottom row.
pub proof fn tick_leaves_no_retired_stream(
    m: MatrixModel,
    fresh: Seq<char>,
    picks: Seq<Option<Seq<char>>>,
)
    ensures
        forall|i: int|
            0 <= i < m.after_tick(fresh, picks).lines.len() ==> !(#[trigger] m.after_tick(
                fresh,
                picks,
            ).lines[i]).retired(m.height),
{
    broadcast use vstd::seq_lib::group_filter_ensures;

    let after = m.after_tick(fresh, picks);
    assert forall|i: int| 0 <= i < after.lines.len() implies !(#[trigger] after.lines[i]).retired(
        m.height,
    ) by {
        let h = m.height;
        let live = |l: LineModel| !l.retired(h);
        let moved = crate::matrix::advance_all(m.lines, fresh);
        let grown = moved + spawned(moved, picks, m.width);
        assert(after.lines == grown.filter(live));
        assert(live(grown.filter(live)[i]));
    }
}

/// A column that holds a stream whose tail is still within the top three rows
/// gets no new stream in that frame, whatever was drawn for it.
pub proof fn busy_column_gets_no_stream(
    lines: Seq<LineModel>,
    picks: Seq<Option<Seq<char>>>,
    n: nat,
    col: nat,
)
    requires
        column_busy(lines, col),
    ensures
        forall|i: int|
            0 <= i < spawned(lines, picks, n).len() ==> (#[trigger] spawned(lines, picks, n)[i]).col
                != col,
    decreases n,
{
    if n > 0 {
        let c = (n - 1) as nat;
        busy_column_gets_no_stream(lines, picks, c, col);
        lemma_spawned_step(lines, picks, n);
    }
}

/// In one frame the new streams start at the top row, in increasing column
/// order, each in a column below `n`: no column gets two.
pub proof fn spawned_columns_increase(lines: Seq<LineModel>, picks: Seq<Option<Seq<char>>>, n: nat)
    ensures
        forall|i: int|
            0 <= i < spawned(lines, picks, n).len() ==> (#[trigger] spawned(lines, picks, n)[i]).col
                < n && spawned(lines, picks, n)[i].row == 0,
        forall|i: int, j: int|
            0 <= i < j < spawned(lines, picks, n).len() ==> (#[trigger] spawned(lines, picks, n)[i]).col
                < (#[trigger] spawned(lines, picks, n)[j]).col,
    decreases n,
{
    if n > 0 {
        spawned_columns_increase(lines, picks, (n - 1) as nat);
        lemma_spawned_step(lines, picks, n);
    }
}

/// Rendering is a function of the grid: two buffers rendered from one state,
/// with no frame between them, are equal.
pub proof fn render_is_deterministic(m: MatrixModel, a: Seq<Vec<LineChar>>, b: Seq<Vec<LineChar>>)
    requires
        renders(a, m),
        renders(b, m),
    ensures
        a.len() == b.len(),
        forall|x: int| 0 <= x < a.len() ==> (#[trigger] a[x])@ == b[x]@,
{
}

/// A head glyph is rendered only at the row of a stream in that column, and is
/// its last glyph; a tail glyph only at a row in `[row - len + 1, row - 1]` of
/// a stream in that column, and is its glyph `row - y`.
pub proof fn rendered_cells_come_from_streams(m: MatrixModel, x: nat, y: nat)
    requires
        x < m.width,
        y < m.height,
    ensures
        rendered(m)[x as int][y as int] matches LineChar::Head(c) ==> exists|i: int|
            0 <= i < m.lines.len() && (#[trigger] m.lines[i]).col == x && m.lines[i].row == y && c
                == m.lines[i].glyphs.last(),
        rendered(m)[x as int][y as int] matches LineChar::Tail(c) ==> exists|i: int|
            0 <= i < m.lines.len() && (#[trigger] m.lines[i]).col == x && m.lines[i].row
                - m.lines[i].len() + 1 <= y < m.lines[i].row && c == m.lines[i].glyphs[m.lines[i].row
                - y],
{
    lemma_cell_origin(m.lines, m.height, x, y);
}

/// One column more keeps the streams spawned before it and adds at most one,
/// in column `n - 1`.
proof fn lemma_spawned_step(lines: Seq<LineModel>, picks: Seq<Option<Seq<char>>>, n: nat)
    requires
        n > 0,
    ensures
        ({
            let before = spawned(lines, picks, (n - 1) as nat);
            let after = spawned(lines, picks, n);
            &&& before.len() <= after.len() <= before.len() + 1
            &&& forall|i: int| 0 <= i < before.len() ==> #[trigger] after[i] == before[i]
            &&& after.len() == before.len() + 1 ==> after.last().col == n - 1 && after.last().row
                == 0 && !column_busy(lines, (n - 1) as nat)
        }),
{
    let c = (n - 1) as nat;
    let before = spawned(lines, picks, c);
    if !column_busy(lines, c) && picks[c as int] is Some {
        let l = LineModel { col: c, row: 0, glyphs: picks[c as int]->0 };
        vstd::seq::axiom_seq_push_len(before, l);
        assert forall|i: int| 0 <= i < before.len() implies #[trigger] before.push(l)[i] == before[i] by {
            vstd::seq::axiom_seq_push_index_different(before, l, i);
        }
        vstd::seq::axiom_seq_push_index_same(before, l, before.len() as int);
    }
}

proof fn lemma_cell_origin(lines: Seq<LineModel>, height: nat, x: nat, y: nat)
    ensures
        cell_at(lines, height, x, y) matches LineChar::Head(c) ==> exists|i: int|
            0 <= i < lines.len() && (#[trigger] lines[i]).col == x && lines[i].row == y && c
                == lines[i].glyphs.last(),
        cell_at(lines, height, x, y) matches LineChar::Tail(c) ==> exists|i: int|
            0 <= i < lines.len() && (#[trigger] lines[i]).col == x && lines[i].row - lines[i].len()
                + 1 <= y < lines[i].row && c == lines[i].glyphs[lines[i].row - y],
    decreases lines.len(),
{
    if lines.len() > 0 {
        let rest = lines.drop_last();
        lemma_cell_origin(rest, height, x, y);
        let last = lines.len() - 1;
        assert(lines.last() == lines[last]);
        assert forall|i: int| 0 <= i < rest.len() implies #[trigger] rest[i] == lines[i] by {}
    }
}

} // verus!
