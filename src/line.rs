//! One falling stream of glyphs.

use crate::random::{random_glyph, random_glyphs};
use vstd::prelude::*;

verus! {

/// The characters a glyph is drawn from.
pub const GLYPH_SET: &'static str = "abcdefghijklmnopqrstuvwxyzABCDEFGHIJKLMNOPQRSTUVWXYZ1234567890-=!@#$%^&*()+[]{};',./<>?~|";

/// The shortest stream that is spawned.
pub const LINE_MIN_LEN: usize = 3;

/// Every stream is shorter than this.
pub const LINE_MAX_LEN: usize = 15;

/// Whether `n` glyphs make a stream of an allowed length.
pub open spec fn valid_length(n: nat) -> bool {
    LINE_MIN_LEN <= n < LINE_MAX_LEN
}

/// The glyphs after one shift: everything moves one place toward the head,
/// the old head glyph drops out, and `fresh` enters at the tail end.
pub open spec fn shifted(glyphs: Seq<char>, fresh: char) -> Seq<char> {
    seq![fresh] + glyphs.drop_last()
}

/// What a stream is: its column, the row of its head, and its glyphs, tail end
/// first and head last.
pub ghost struct LineModel {
    pub col: nat,
    pub row: nat,
    pub glyphs: Seq<char>,
}

impl LineModel {
    /// The number of glyphs.
    pub open spec fn len(self) -> nat {
        self.glyphs.len()
    }

    /// Its length is an allowed one.
    pub open spec fn valid(self) -> bool {
        valid_length(self.len())
    }

    /// The stream one frame later, with `fresh` shifted in.
    pub open spec fn advanced(self, fresh: char) -> LineModel {
        LineModel { col: self.col, row: self.row + 1, glyphs: shifted(self.glyphs, fresh) }
    }

    /// Its tail has not yet cleared the top three rows.
    pub open spec fn blocks_spawn(self) -> bool {
        self.row - self.len() < 3
    }

    /// No glyph of it can be on a grid of this height any more.
    pub open spec fn retired(self, height: nat) -> bool {
        self.row - self.len() > height
    }
}

/// A falling stream of glyphs.
pub struct Line {
    glyphs: Vec<char>,
    column: usize,
    row: usize,
}

impl View for Line {
    type V = LineModel;

    closed spec fn view(&self) -> LineModel {
        LineModel { col: self.column as nat, row: self.row as nat, glyphs: self.glyphs@ }
    }
}

impl Line {
    /// A stream at the top of column `col`, of `len` glyphs drawn at random
    /// from the glyph set.
    pub fn new(col: usize, len: u32) -> (r: Line)
        requires
            valid_length(len as nat),
        ensures
            r@.col == col,
            r@.row == 0,
            r@.len() == len,
            forall|i: int| 0 <= i < r@.len() ==> GLYPH_SET@.contains(#[trigger] r@.glyphs[i]),
    {
        proof {
            reveal_strlit("abcdefghijklmnopqrstuvwxyzABCDEFGHIJKLMNOPQRSTUVWXYZ1234567890-=!@#$%^&*()+[]{};',./<>?~|");
        }
        let glyphs = random_glyphs(GLYPH_SET, len as usize);
        Line { glyphs, column: col, row: 0 }
    }

    /// A stream at the top of column `col` with the given glyphs, or `None`
    /// where their number is not an allowed length.
    pub fn from_glyphs(col: usize, glyphs: Vec<char>) -> (r: Option<Line>)
        ensures
            r is Some <==> valid_length(glyphs@.len()),
            r matches Some(l) ==> l@ == (LineModel { col: col as nat, row: 0, glyphs: glyphs@ }),
    {
        if LINE_MIN_LEN <= glyphs.len() && glyphs.len() < LINE_MAX_LEN {
            Some(Line { glyphs, column: col, row: 0 })
        } else {
            None
        }
    }

    /// Shifts the glyphs one place toward the head and puts a glyph drawn at
    /// random from the glyph set at the tail end.
    pub fn shift(&mut self)
        requires
            old(self)@.len() > 0,
        ensures
            exists|c: char| GLYPH_SET@.contains(c) && final(self)@.glyphs == shifted(old(self)@.glyphs, c),
            final(self)@.len() == old(self)@.len(),
            final(self)@.col == old(self)@.col,
            final(self)@.row == old(self)@.row,
    {
        proof {
            reveal_strlit("abcdefghijklmnopqrstuvwxyzABCDEFGHIJKLMNOPQRSTUVWXYZ1234567890-=!@#$%^&*()+[]{};',./<>?~|");
        }
        let c = random_glyph(GLYPH_SET);
        self.shift_in(c);
    }

    /// Shifts the glyphs one place toward the head: glyph `i` moves to `i + 1`
    /// from the head end down, the head glyph drops out, and `fresh` enters at
    /// index 0.
    pub fn shift_in(&mut self, fresh: char)
        requires
            old(self)@.len() > 0,
        ensures
            final(self)@.glyphs == shifted(old(self)@.glyphs, fresh),
            final(self)@.len() == old(self)@.len(),
            final(self)@.col == old(self)@.col,
            final(self)@.row == old(self)@.row,
    {
        let n = self.glyphs.len();
        let mut i: usize = n - 1;
        while i > 0
            invariant
                0 <= i < n,
                n == old(self).glyphs@.len(),
                self.column == old(self).column,
                self.row == old(self).row,
                self.glyphs@.len() == n,
                forall|j: int| 0 <= j <= i ==> self.glyphs@[j] == old(self).glyphs@[j],
                forall|j: int| i < j < n ==> self.glyphs@[j] == old(self).glyphs@[j - 1],
            decreases i,
        {
            let c = self.glyphs[i - 1];
            self.glyphs.set(i, c);
            i = i - 1;
        }
        self.glyphs.set(0, fresh);
        assert(self.glyphs@ =~= shifted(old(self).glyphs@, fresh));
    }

    /// Moves the head one row down and shifts `fresh` in.
    pub fn advance(&mut self, fresh: char)
        requires
            old(self)@.len() > 0,
            old(self)@.row < usize::MAX,
        ensures
            final(self)@ == old(self)@.advanced(fresh),
            final(self)@.row > old(self)@.row,
            final(self)@.len() == old(self)@.len(),
    {
        self.row = self.row + 1;
        self.shift_in(fresh);
    }

    /// The number of glyphs.
    pub fn len(&self) -> (r: usize)
        ensures
            r == self@.len(),
    {
        self.glyphs.len()
    }

    /// The column the stream falls in.
    pub fn column(&self) -> (r: usize)
        ensures
            r == self@.col,
    {
        self.column
    }

    /// The row of the head glyph; it may lie below the grid.
    pub fn row(&self) -> (r: usize)
        ensures
            r == self@.row,
    {
        self.row
    }

    /// The glyphs, tail end first and head last.
    pub fn glyphs(&self) -> (r: &Vec<char>)
        ensures
            r@ == self@.glyphs,
    {
        &self.glyphs
    }
}

} // verus!
