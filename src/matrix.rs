//! The grid of falling streams: the per-frame update and the rasterisation.

use crate::line::{valid_length, Line, LineModel, GLYPH_SET, LINE_MAX_LEN, LINE_MIN_LEN};
use crate::random::{random_below, random_glyph, random_glyphs, random_ratio};
use vstd::prelude::*;

verus! {

/// The chance that an eligible column receives a new stream in one frame is
/// `SPAWN_CHANCE_NUM / SPAWN_CHANCE_DEN`.
pub const SPAWN_CHANCE_NUM: u32 = 1;

/// See `SPAWN_CHANCE_NUM`.
pub const SPAWN_CHANCE_DEN: u32 = 10;

/// What one cell of the grid shows.
#[derive(Clone, Copy, Debug, PartialEq, Eq, Structural)]
pub enum LineChar {
    Empty,
    Tail(char),
    Head(char),
}

/// What a grid is: its size and its streams, oldest first.
pub ghost struct MatrixModel {
    pub width: nat,
    pub height: nat,
    pub lines: Seq<LineModel>,
}

/// The models of a vector of streams.
pub open spec fn models(lines: Seq<Line>) -> Seq<LineModel> {
    lines.map_values(|l: Line| l@)
}

/// A stream that may stand on a grid of this width.
pub open spec fn fits(l: LineModel, width: nat) -> bool {
    l.valid() && l.col < width
}

/// Every stream advanced by one frame, stream `i` taking `fresh[i]`.
pub open spec fn advance_all(lines: Seq<LineModel>, fresh: Seq<char>) -> Seq<LineModel> {
    Seq::new(lines.len(), |i: int| lines[i].advanced(fresh[i]))
}

/// Some stream in column `col` has not yet cleared the top three rows.
pub open spec fn column_busy(lines: Seq<LineModel>, col: nat) -> bool {
    exists|i: int| 0 <= i < lines.len() && lines[i].col == col && lines[i].blocks_spawn()
}

/// The streams spawned over columns `0..n`, in column order: column `c` gets
/// one where it is not busy and `picks[c]` holds glyphs for it.
pub open spec fn spawned(lines: Seq<LineModel>, picks: Seq<Option<Seq<char>>>, n: nat) -> Seq<
    LineModel,
>
    decreases n,
{
    if n == 0 {
        Seq::empty()
    } else {
        let c = (n - 1) as nat;
        let before = spawned(lines, picks, c);
        if !column_busy(lines, c) && picks[c as int] is Some {
            before.push(LineModel { col: c, row: 0, glyphs: picks[c as int]->0 })
        } else {
            before
        }
    }
}

/// The streams that are not retired, in their order.
pub open spec fn retain_live(lines: Seq<LineModel>, height: nat) -> Seq<LineModel> {
    lines.filter(|l: LineModel| !l.retired(height))
}

/// Glyphs for a new stream in each column, or none.
pub open spec fn valid_picks(picks: Seq<Option<Seq<char>>>, width: nat) -> bool {
    &&& picks.len() == width
    &&& forall|c: int|
        0 <= c < picks.len() ==> (#[trigger] picks[c] matches Some(g) ==> valid_length(g.len()))
}

/// The models of the picks handed to a frame.
pub open spec fn pick_models(picks: Seq<Option<Vec<char>>>) -> Seq<Option<Seq<char>>> {
    picks.map_values(
        |p: Option<Vec<char>>|
            match p {
                Some(g) => Some(g@),
                None => None,
            },
    )
}

/// Every glyph is one of the glyph set.
pub open spec fn from_glyph_set(glyphs: Seq<char>) -> bool {
    forall|i: int| 0 <= i < glyphs.len() ==> GLYPH_SET@.contains(#[trigger] glyphs[i])
}

/// Every glyph of every pick is one of the glyph set.
pub open spec fn picks_from_glyph_set(picks: Seq<Option<Seq<char>>>) -> bool {
    forall|c: int| 0 <= c < picks.len() ==> (#[trigger] picks[c] matches Some(g) ==> from_glyph_set(g))
}

/// What stream `l` writes into cell `(x, y)` of a grid of this height, if
/// anything: its head glyph at its row, and tail glyph `i` at row `row - i`
/// for `i` below `len - 1`, all clipped to the grid.
pub open spec fn line_mark(l: LineModel, height: nat, x: nat, y: nat) -> Option<LineChar> {
    if l.col != x || y >= height {
        None
    } else if y == l.row {
        Some(LineChar::Head(l.glyphs.last()))
    } else if y < l.row && l.row - y < l.len() - 1 {
        Some(LineChar::Tail(l.glyphs[l.row - y]))
    } else {
        None
    }
}

/// Cell `(x, y)` once the streams are drawn in order, a later one over an
/// earlier one.
pub open spec fn cell_at(lines: Seq<LineModel>, height: nat, x: nat, y: nat) -> LineChar
    decreases lines.len(),
{
    if lines.len() == 0 {
        LineChar::Empty
    } else {
        match line_mark(lines.last(), height, x, y) {
            Some(c) => c,
            None => cell_at(lines.drop_last(), height, x, y),
        }
    }
}

/// The cells of column `x`, top row first.
pub open spec fn column_cells(m: MatrixModel, x: nat) -> Seq<LineChar> {
    Seq::new(m.height, |y: int| cell_at(m.lines, m.height, x, y as nat))
}

/// The whole grid, column by column.
pub open spec fn rendered(m: MatrixModel) -> Seq<Seq<LineChar>> {
    Seq::new(m.width, |x: int| column_cells(m, x as nat))
}

/// `buffer`, indexed by column and then row, holds the rendering of `m`.
pub open spec fn renders(buffer: Seq<Vec<LineChar>>, m: MatrixModel) -> bool {
    &&& buffer.len() == m.width
    &&& forall|x: int| 0 <= x < buffer.len() ==> (#[trigger] buffer[x])@ == rendered(m)[x]
}

impl MatrixModel {
    /// The grid between frames: every stream fits and none is retired, and a
    /// stream's row can always grow by one.
    pub open spec fn wf(self) -> bool {
        &&& self.height + LINE_MAX_LEN < usize::MAX
        &&& forall|i: int|
            0 <= i < self.lines.len() ==> fits(#[trigger] self.lines[i], self.width)
                && !self.lines[i].retired(self.height)
    }

    /// The grid inside a frame, after the streams advanced: a row is at most
    /// one past the retirement bound.
    pub open spec fn wf_in_frame(self) -> bool {
        &&& self.height + LINE_MAX_LEN < usize::MAX
        &&& forall|i: int|
            0 <= i < self.lines.len() ==> fits(#[trigger] self.lines[i], self.width)
                && self.lines[i].row <= self.height + self.lines[i].len() + 1
    }

    /// The grid one frame later: every stream advances, taking `fresh[i]`;
    /// then the columns that are not busy get the streams of `picks`; then the
    /// retired streams are removed.
    pub open spec fn after_tick(self, fresh: Seq<char>, picks: Seq<Option<Seq<char>>>) -> MatrixModel {
        let moved = advance_all(self.lines, fresh);
        let grown = moved + spawned(moved, picks, self.width);
        MatrixModel { width: self.width, height: self.height, lines: retain_live(grown, self.height) }
    }
}

/// A grid of falling streams.
pub struct Matrix {
    size_x: usize,
    size_y: usize,
    lines: Vec<Line>,
}

impl View for Matrix {
    type V = MatrixModel;

    closed spec fn view(&self) -> MatrixModel {
        MatrixModel {
            width: self.size_x as nat,
            height: self.size_y as nat,
            lines: models(self.lines@),
        }
    }
}

impl Matrix {
    /// An empty grid of `size_x` columns and `size_y` rows.
    pub fn new(size_x: usize, size_y: usize) -> (r: Matrix)
        requires
            size_y + LINE_MAX_LEN < usize::MAX,
        ensures
            r@ == (MatrixModel { width: size_x as nat, height: size_y as nat, lines: Seq::empty() }),
            r@.wf(),
    {
        let r = Matrix { size_x, size_y, lines: Vec::new() };
        assert(r@.lines =~= Seq::empty());
        r
    }

    /// The number of columns.
    pub fn width(&self) -> (r: usize)
        ensures
            r == self@.width,
    {
        self.size_x
    }

    /// The number of rows.
    pub fn height(&self) -> (r: usize)
        ensures
            r == self@.height,
    {
        self.size_y
    }

    /// The live streams, oldest first.
    pub fn lines(&self) -> (r: &Vec<Line>)
        ensures
            models(r@) == self@.lines,
    {
        &self.lines
    }

    /// Adds `line` as the newest stream where it fits the grid and is not
    /// retired; otherwise leaves the grid as it is. Returns whether it was
    /// added.
    pub fn push_line(&mut self, line: Line) -> (r: bool)
        requires
            old(self)@.wf(),
        ensures
            r == (fits(line@, old(self)@.width) && !line@.retired(old(self)@.height)),
            r ==> final(self)@ == (MatrixModel { lines: old(self)@.lines.push(line@), ..old(self)@ }),
            !r ==> final(self)@ == old(self)@,
            final(self)@.wf(),
    {
        let len = line.len();
        if LINE_MIN_LEN <= len && len < LINE_MAX_LEN && line.column() < self.size_x && line.row()
            <= self.size_y + len {
            self.lines.push(line);
            assert(models(self.lines@) =~= models(old(self).lines@).push(line@));
            true
        } else {
            false
        }
    }

    /// Advances every stream by one row, stream `i` taking `fresh[i]`.
    fn move_lines(&mut self, fresh: &Vec<char>)
        requires
            old(self)@.wf(),
            fresh@.len() == old(self)@.lines.len(),
        ensures
            final(self)@ == (MatrixModel { lines: advance_all(old(self)@.lines, fresh@), ..old(self)@ }),
            final(self)@.wf_in_frame(),
            forall|i: int|
                0 <= i < old(self)@.lines.len() ==> final(self)@.lines[i].row > old(self)@.lines[i].row
                    && final(self)@.lines[i].len() == old(self)@.lines[i].len(),
    {
        let n = self.lines.len();
        let mut i: usize = 0;
        while i < n
            invariant
                0 <= i <= n,
                n == old(self).lines@.len(),
                fresh@.len() == n,
                old(self)@.wf(),
                self.size_x == old(self).size_x,
                self.size_y == old(self).size_y,
                self.lines@.len() == n,
                forall|j: int| 0 <= j < i ==> (#[trigger] self.lines@[j])@ == old(self).lines@[j]@.advanced(fresh@[j]),
                forall|j: int| i <= j < n ==> #[trigger] self.lines@[j] == old(self).lines@[j],
            decreases n - i,
        {
            proof {
                assert(old(self)@.lines[i as int] == old(self).lines@[i as int]@);
            }
            self.lines[i].advance(fresh[i]);
            i = i + 1;
        }
        assert(self@.lines =~= advance_all(old(self)@.lines, fresh@));
    }

    /// For each column, whether it may receive a new stream: no stream in it
    /// has its tail within the top three rows.
    fn spawn_eligible(&self) -> (r: Vec<bool>)
        requires
            self@.wf_in_frame(),
        ensures
            r@.len() == self@.width,
            forall|c: int| 0 <= c < r@.len() ==> r@[c] == !column_busy(self@.lines, c as nat),
    {
        let mut can_spawn: Vec<bool> = Vec::new();
        let mut c: usize = 0;
        while c < self.size_x
            invariant
                c <= self.size_x,
                can_spawn@.len() == c,
                forall|j: int| 0 <= j < c ==> can_spawn@[j],
            decreases self.size_x - c,
        {
            can_spawn.push(true);
            c = c + 1;
        }
        let n = self.lines.len();
        let mut i: usize = 0;
        while i < n
            invariant
                0 <= i <= n,
                n == self@.lines.len(),
                self@.wf_in_frame(),
                can_spawn@.len() == self@.width,
                forall|c: int|
                    0 <= c < can_spawn@.len() ==> can_spawn@[c] == !(exists|j: int|
                        0 <= j < i && self@.lines[j].col == c && #[trigger] self@.lines[j].blocks_spawn()),
            decreases n - i,
        {
            let line = &self.lines[i];
            assert(self@.lines[i as int] == line@);
            let col = line.column();
            let ghost prev = can_spawn@;
            if line.row() < line.len() + 3 {
                can_spawn.set(col, false);
            }
            proof {
                assert forall|c: int| 0 <= c < can_spawn@.len() implies can_spawn@[c] == !(exists|j: int|
                    0 <= j < i + 1 && self@.lines[j].col == c && #[trigger] self@.lines[j].blocks_spawn()) by {
                    if c == col && line@.blocks_spawn() {
                        assert(self@.lines[i as int].col == c && self@.lines[i as int].blocks_spawn());
                    } else {
                        assert(prev[c] == can_spawn@[c]);
                        if exists|j: int| 0 <= j < i + 1 && self@.lines[j].col == c && #[trigger] self@.lines[j].blocks_spawn() {
                            let j = choose|j: int| 0 <= j < i + 1 && self@.lines[j].col == c && #[trigger] self@.lines[j].blocks_spawn();
                            assert(j < i);
                        }
                    }
                }
            }
            i = i + 1;
        }
        can_spawn
    }

    /// Appends, in column order, a stream for each column that `can_spawn`
    /// allows and `picks` holds glyphs for.
    fn new_lines(&mut self, picks: Vec<Option<Vec<char>>>)
        requires
            old(self)@.wf_in_frame(),
            valid_picks(pick_models(picks@), old(self)@.width),
        ensures
            final(self)@ == (MatrixModel {
                lines: old(self)@.lines + spawned(old(self)@.lines, pick_models(picks@), old(self)@.width),
                ..old(self)@
            }),
            final(self)@.wf_in_frame(),
    {
        let can_spawn = self.spawn_eligible();
        let ghost start = self@.lines;
        let ghost all = pick_models(picks@);
        let mut picks = picks;
        let mut col: usize = 0;
        while col < self.size_x
            invariant
                col <= self.size_x,
                self.size_x == old(self).size_x,
                self.size_y == old(self).size_y,
                start == old(self)@.lines,
                can_spawn@.len() == self.size_x,
                forall|c: int| 0 <= c < can_spawn@.len() ==> can_spawn@[c] == !column_busy(start, c as nat),
                picks@.len() == self.size_x,
                all.len() == self.size_x,
                valid_picks(all, self.size_x as nat),
                forall|c: int| col <= c < picks@.len() ==> pick_models(picks@)[c] == all[c],
                self@.lines == start + spawned(start, all, col as nat),
                self@.wf_in_frame(),
            decreases self.size_x - col,
        {
            let ghost before = picks@;
            assert(pick_models(before)[col as int] == all[col as int]);
            let pick = picks[col].take();
            let ghost lines_before = self.lines@;
            if can_spawn[col] {
                if let Some(glyphs) = pick {
                    assert(all[col as int] == Some(glyphs@));
                    let line = Line::from_glyphs(col, glyphs);
                    if let Some(line) = line {
                        self.lines.push(line);
                        assert(models(self.lines@) =~= models(lines_before).push(line@));
                    }
                }
            }
            proof {
                let c = col as nat;
                assert(spawned(start, all, c + 1) == if !column_busy(start, c) && all[c as int] is Some {
                    spawned(start, all, c).push(LineModel { col: c, row: 0, glyphs: all[c as int]->0 })
                } else {
                    spawned(start, all, c)
                });
                assert(self@.lines =~= start + spawned(start, all, c + 1));
            }
            proof {
                assert forall|c: int| col + 1 <= c < picks@.len() implies pick_models(picks@)[c] == all[c] by {
                    assert(picks@[c] == before[c]);
                }
            }
            col = col + 1;
        }
    }

    /// Removes every retired stream, keeping the order of the others.
    fn end_lines(&mut self)
        requires
            old(self)@.wf_in_frame(),
        ensures
            final(self)@ == (MatrixModel { lines: retain_live(old(self)@.lines, old(self)@.height), ..old(self)@ }),
            forall|i: int| 0 <= i < final(self)@.lines.len() ==> !(#[trigger] final(self)@.lines[i]).retired(final(self)@.height),
            final(self)@.wf(),
    {
        let ghost start = self@.lines;
        let ghost height = self.size_y as nat;
        let ghost live = |l: LineModel| !l.retired(height);
        let ghost mut k: int = 0;
        let mut i: usize = 0;
        while i < self.lines.len()
            invariant
                self.size_x == old(self).size_x,
                self.size_y == old(self).size_y,
                height == self.size_y,
                live == (|l: LineModel| !l.retired(height)),
                start == old(self)@.lines,
                old(self)@.wf_in_frame(),
                0 <= k <= start.len(),
                i <= self.lines@.len(),
                i == start.take(k).filter(live).len(),
                self@.lines == start.take(k).filter(live) + start.skip(k),
                self@.wf_in_frame(),
                forall|j: int| 0 <= j < i ==> !(#[trigger] self@.lines[j]).retired(height),
            decreases self.lines@.len() - i,
        {
            let ghost cur = self@.lines;
            let ghost kept = start.take(k).filter(live);
            assert(cur[i as int] == start[k]);
            assert(start.take(k + 1) =~= start.take(k).push(start[k]));
            proof {
                start.take(k).lemma_filter_push(start[k], live);
            }
            assert(start.take(k + 1).filter(live) == if live(start[k]) { kept.push(start[k]) } else { kept });
            assert(start.skip(k) =~= seq![start[k]] + start.skip(k + 1));
            assert(cur == kept + (seq![start[k]] + start.skip(k + 1)));
            let line = &self.lines[i];
            assert(line@ == start[k]);
            if line.row() > self.size_y + line.len() {
                self.lines.remove(i);
                assert(start[k].retired(height));
                assert(!live(start[k]));
                assert(self@.lines =~= cur.remove(i as int));
                assert(cur.remove(i as int) =~= kept + start.skip(k + 1));
            } else {
                assert(!start[k].retired(height));
                assert(live(start[k]));
                assert(cur =~= kept.push(start[k]) + start.skip(k + 1));
                i = i + 1;
            }
            proof {
                k = k + 1;
            }
        }
        proof {
            assert(start.skip(k).len() == 0);
            assert(start.take(k) =~= start);
            assert(self@.lines =~= retain_live(start, height));
        }
    }

    /// One frame with the given draws: the streams advance, stream `i` taking
    /// `fresh[i]`; each column that is not busy gets a stream of the glyphs
    /// `picks` holds for it, if any; the retired streams are removed.
    pub fn tick_with(&mut self, fresh: Vec<char>, picks: Vec<Option<Vec<char>>>)
        requires
            old(self)@.wf(),
            fresh@.len() == old(self)@.lines.len(),
            valid_picks(pick_models(picks@), old(self)@.width),
        ensures
            final(self)@ == old(self)@.after_tick(fresh@, pick_models(picks@)),
            final(self)@.wf(),
    {
        self.move_lines(&fresh);
        self.new_lines(picks);
        self.end_lines();
    }

    /// One frame: the streams advance, each taking a random glyph; each column
    /// that is not busy gets, with chance `SPAWN_CHANCE_NUM / SPAWN_CHANCE_DEN`,
    /// a stream of random length and glyphs; the retired streams are removed.
    pub fn tick(&mut self)
        requires
            old(self)@.wf(),
        ensures
            final(self)@.wf(),
            exists|fresh: Seq<char>, picks: Seq<Option<Seq<char>>>|
                {
                    &&& fresh.len() == old(self)@.lines.len()
                    &&& from_glyph_set(fresh)
                    &&& valid_picks(picks, old(self)@.width)
                    &&& picks_from_glyph_set(picks)
                    &&& final(self)@ == #[trigger] old(self)@.after_tick(fresh, picks)
                },
    {
        let fresh = self.random_fresh();
        self.move_lines(&fresh);
        let picks = self.random_picks();
        let ghost chosen = pick_models(picks@);
        self.new_lines(picks);
        self.end_lines();
        assert(self@ == old(self)@.after_tick(fresh@, chosen));
    }

    /// A random glyph for each stream.
    fn random_fresh(&self) -> (r: Vec<char>)
        ensures
            r@.len() == self@.lines.len(),
            from_glyph_set(r@),
    {
        proof {
            reveal_strlit("abcdefghijklmnopqrstuvwxyzABCDEFGHIJKLMNOPQRSTUVWXYZ1234567890-=!@#$%^&*()+[]{};',./<>?~|");
        }
        let n = self.lines.len();
        let mut fresh: Vec<char> = Vec::new();
        let mut i: usize = 0;
        while i < n
            invariant
                i <= n,
                n == self@.lines.len(),
                fresh@.len() == i,
                GLYPH_SET@.len() > 0,
                from_glyph_set(fresh@),
            decreases n - i,
        {
            let c = random_glyph(GLYPH_SET);
            fresh.push(c);
            i = i + 1;
        }
        fresh
    }

    /// For each column that is not busy, with chance
    /// `SPAWN_CHANCE_NUM / SPAWN_CHANCE_DEN`, random glyphs of a random
    /// allowed length; nothing for the other columns.
    fn random_picks(&self) -> (r: Vec<Option<Vec<char>>>)
        requires
            self@.wf_in_frame(),
        ensures
            valid_picks(pick_models(r@), self@.width),
            picks_from_glyph_set(pick_models(r@)),
    {
        proof {
            reveal_strlit("abcdefghijklmnopqrstuvwxyzABCDEFGHIJKLMNOPQRSTUVWXYZ1234567890-=!@#$%^&*()+[]{};',./<>?~|");
        }
        let can_spawn = self.spawn_eligible();
        let mut picks: Vec<Option<Vec<char>>> = Vec::new();
        let mut col: usize = 0;
        while col < self.size_x
            invariant
                col <= self.size_x,
                can_spawn@.len() == self.size_x,
                picks@.len() == col,
                GLYPH_SET@.len() >= LINE_MAX_LEN,
                forall|c: int| 0 <= c < col ==> (#[trigger] pick_models(picks@)[c] matches Some(g)
                    ==> valid_length(g.len()) && from_glyph_set(g)),
            decreases self.size_x - col,
        {
            let ghost before = picks@;
            if can_spawn[col] && random_ratio(SPAWN_CHANCE_NUM, SPAWN_CHANCE_DEN) {
                let len = random_below(LINE_MIN_LEN as u32, LINE_MAX_LEN as u32);
                let glyphs = random_glyphs(GLYPH_SET, len as usize);
                let ghost g = glyphs@;
                assert(valid_length(g.len()) && from_glyph_set(g));
                picks.push(Some(glyphs));
                assert(pick_models(picks@)[col as int] == Some(g));
            } else {
                picks.push(None);
                assert(pick_models(picks@)[col as int] == None::<Seq<char>>);
            }
            assert forall|c: int| 0 <= c < col implies pick_models(picks@)[c] == pick_models(before)[c] by {
                assert(picks@[c] == before[c]);
            }
            assert forall|c: int| 0 <= c < col + 1 implies (#[trigger] pick_models(picks@)[c] matches Some(g)
                ==> valid_length(g.len()) && from_glyph_set(g)) by {
                if c < col {
                    assert(pick_models(picks@)[c] == pick_models(before)[c]);
                }
            }
            col = col + 1;
        }
        picks
    }

    /// The grid's cells, indexed by column and then row, drawn afresh from the
    /// streams in order, so that a later stream wins where two overlap.
    pub fn render(&self) -> (r: Vec<Vec<LineChar>>)
        requires
            self@.wf(),
        ensures
            renders(r@, self@),
    {
        let mut buffer: Vec<Vec<LineChar>> = Vec::new();
        let mut x: usize = 0;
        while x < self.size_x
            invariant
                x <= self.size_x,
                self@.wf(),
                buffer@.len() == x,
                forall|c: int| 0 <= c < x ==> (#[trigger] buffer@[c])@ == column_cells(self@, c as nat),
            decreases self.size_x - x,
        {
            let column = self.render_column(x);
            buffer.push(column);
            x = x + 1;
        }
        buffer
    }

    /// The cells of column `x`, top row first.
    fn render_column(&self, x: usize) -> (r: Vec<LineChar>)
        requires
            self@.wf(),
        ensures
            r@ == column_cells(self@, x as nat),
    {
        let ghost lines = self@.lines;
        let ghost height = self.size_y as nat;
        let mut column: Vec<LineChar> = Vec::new();
        let mut y: usize = 0;
        while y < self.size_y
            invariant
                y <= self.size_y,
                column@.len() == y,
                forall|j: int| 0 <= j < y ==> column@[j] == LineChar::Empty,
            decreases self.size_y - y,
        {
            column.push(LineChar::Empty);
            y = y + 1;
        }
        let n = self.lines.len();
        let mut k: usize = 0;
        while k < n
            invariant
                k <= n,
                n == lines.len(),
                lines == self@.lines,
                height == self.size_y,
                self@.wf(),
                column@.len() == height,
                forall|j: int| 0 <= j < height ==> #[trigger] column@[j] == cell_at(lines.take(k as int), height, x as nat, j as nat),
            decreases n - k,
        {
            let line = &self.lines[k];
            assert(line@ == lines[k as int]);
            if line.column() == x {
                column = paint(column, line);
            }
            proof {
                assert(lines.take(k + 1).drop_last() =~= lines.take(k as int));
                assert forall|j: int| 0 <= j < height implies #[trigger] column@[j] == cell_at(lines.take(k + 1), height, x as nat, j as nat) by {
                    assert(lines.take(k + 1).last() == line@);
                    if line@.col != x {
                        assert(line_mark(line@, height, x as nat, j as nat) is None);
                    }
                }
            }
            k = k + 1;
        }
        assert(lines.take(n as int) =~= lines);
        assert(column@ =~= column_cells(self@, x as nat));
        column
    }
}

/// `column`, a column of the grid whose height is its length, with `line`
/// drawn into it: tail glyphs first, then the head over them.
fn paint(column: Vec<LineChar>, line: &Line) -> (r: Vec<LineChar>)
    requires
        line@.len() > 0,
    ensures
        r@.len() == column@.len(),
        forall|y: int|
            0 <= y < column@.len() ==> #[trigger] r@[y] == match line_mark(
                line@,
                column@.len(),
                line@.col,
                y as nat,
            ) {
                Some(c) => c,
                None => column@[y],
            },
{
    let ghost start = column@;
    let mut column = column;
    let height = column.len();
    let row = line.row();
    let n = line.len();
    let glyphs = line.glyphs();
    let mut i: usize = 0;
    while i < n - 1 && i <= row
        invariant
            height == column@.len(),
            height == start.len(),
            row == line@.row,
            n == line@.len(),
            n > 0,
            glyphs@ == line@.glyphs,
            i <= n - 1,
            i <= row + 1,
            forall|y: int|
                0 <= y < height ==> #[trigger] column@[y] == if y <= row && row - y < i {
                    LineChar::Tail(glyphs@[row - y])
                } else {
                    start[y]
                },
        decreases n - i,
    {
        let y = row - i;
        if y < height {
            let ghost before = column@;
            column.set(y, LineChar::Tail(glyphs[i]));
            proof {
                lemma_update(before, y as int, LineChar::Tail(glyphs@[i as int]));
            }
        }
        i = i + 1;
    }
    if row < height {
        let ghost before = column@;
        column.set(row, LineChar::Head(glyphs[n - 1]));
        proof {
            lemma_update(before, row as int, LineChar::Head(glyphs@[n - 1]));
        }
    }
    column
}

/// What an update leaves in a sequence.
proof fn lemma_update<A>(s: Seq<A>, i: int, a: A)
    requires
        0 <= i < s.len(),
    ensures
        s.update(i, a).len() == s.len(),
        forall|j: int| 0 <= j < s.len() ==> #[trigger] s.update(i, a)[j] == if j == i { a } else { s[j] },
{
}

} // verus!
