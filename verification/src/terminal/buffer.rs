//! A grid of character cells, and what changed between two of them.

use vstd::prelude::*;

use super::Color;

verus! {

#[derive(Debug, Clone, Copy, PartialEq, Eq, Structural)]
pub struct Cell {
    pub ch: char,
    pub fg: Color,
    pub bg: Color,
}

impl Default for Cell {
    fn default() -> (c: Self)
        ensures
            c == blank_cell(),
    {
        Self { ch: ' ', fg: Color::Reset, bg: Color::Reset }
    }
}

/// A space with the terminal's own colors.
pub open spec fn blank_cell() -> Cell {
    Cell { ch: ' ', fg: Color::Reset, bg: Color::Reset }
}

/// A grid of `w` by `h` cells, row after row.
#[derive(Debug, Clone)]
pub struct Buffer {
    pub cells: Vec<Cell>,
    pub w: usize,
    pub h: usize,
}

/// A change between two grids: a cell's column, row and new content.
pub type Change = (usize, usize, Cell);

/// The changes between `a` and `b` over their first `n` cells, in order:
/// one for each cell that differs, with the cell of `b`.
pub open spec fn changes(a: Seq<Cell>, b: Seq<Cell>, w: int, n: int) -> Seq<Change>
    decreases n,
{
    if n <= 0 {
        seq![]
    } else {
        changes(a, b, w, n - 1) + if a[n - 1] != b[n - 1] {
            seq![(((n - 1) % w) as usize, ((n - 1) / w) as usize, b[n - 1])]
        } else {
            seq![]
        }
    }
}

/// The cells after each change is written at its column and row.
pub open spec fn apply_changes(cells: Seq<Cell>, w: int, cs: Seq<Change>) -> Seq<Cell>
    decreases cs.len(),
{
    if cs.len() == 0 {
        cells
    } else {
        let c = cs.last();
        apply_changes(cells, w, cs.drop_last()).update(w * c.1 + c.0, c.2)
    }
}

/// Cell `i` after `put_str` wrote `s` from `start` on.
pub open spec fn put_cell(cells: Seq<Cell>, start: int, s: Seq<char>, fg: Color, bg: Color, i: int) -> Cell {
    if start <= i < start + s.len() {
        Cell { ch: s[i - start], fg: fg, bg: bg }
    } else {
        cells[i]
    }
}

/// The cells `put_str` leaves: the characters of `s` from `start` on, as
/// far as the grid goes.
pub open spec fn put_chars(cells: Seq<Cell>, start: int, s: Seq<char>, fg: Color, bg: Color) -> Seq<
    Cell,
> {
    Seq::new(cells.len(), |i: int| put_cell(cells, start, s, fg, bg, i))
}

impl Buffer {
    pub fn new(w: usize, h: usize) -> (b: Self)
        requires
            w * h <= usize::MAX,
        ensures
            b.w == w,
            b.h == h,
            b.cells@ == Seq::new((w * h) as nat, |i: int| blank_cell()),
    {
        let cells = vec![Cell::default(); w * h];
        proof {
            assert(cells@ =~= Seq::new((w * h) as nat, |i: int| blank_cell()));
        }
        Self { cells, w, h }
    }

    fn index_of(&self, x: usize, y: usize) -> (i: usize)
        requires
            self.w * y + x <= usize::MAX,
        ensures
            i == self.w * y + x,
    {
        proof {
            assert(0 <= self.w * y) by (nonlinear_arith);
        }
        self.w * y + x
    }

    fn coord_of(&self, index: usize) -> (c: (usize, usize))
        requires
            self.w > 0,
        ensures
            c == ((index % self.w) as usize, (index / self.w) as usize),
    {
        (index % self.w, index / self.w)
    }

    pub fn get(&self, x: usize, y: usize) -> (c: &Cell)
        requires
            self.w * y + x < self.cells@.len(),
        ensures
            *c == self.cells@[self.w * y + x],
    {
        assert(self.cells.len() == self.cells@.len());
        let index = self.index_of(x, y);
        &self.cells[index]
    }

    pub fn get_mut(&mut self, x: usize, y: usize) -> (c: &mut Cell)
        requires
            old(self).w * y + x < old(self).cells@.len(),
        ensures
            *c == old(self).cells@[old(self).w * y + x],
            final(self).cells@ == old(self).cells@.update(old(self).w * y + x, *final(c)),
            final(self).w == old(self).w,
            final(self).h == old(self).h,
    {
        assert(self.cells.len() == self.cells@.len());
        let index = self.index_of(x, y);
        &mut self.cells[index]
    }

    /// Writes one cell; a position past the grid is left out.
    pub fn put(&mut self, x: usize, y: usize, ch: char, fg: Color, bg: Color)
        requires
            old(self).w * y + x <= usize::MAX,
        ensures
            final(self).w == old(self).w,
            final(self).h == old(self).h,
            final(self).cells@ == if old(self).w * y + x < old(self).cells@.len() {
                old(self).cells@.update(old(self).w * y + x, Cell { ch, fg, bg })
            } else {
                old(self).cells@
            },
    {
        let index = self.index_of(x, y);
        if index < self.cells.len() {
            self.cells[index] = Cell { ch, fg, bg };
        }
    }

    /// Writes the characters of `s` from a position on, one cell each; what
    /// runs past the grid is left out.
    pub fn put_str(&mut self, x: usize, y: usize, s: &str, fg: Color, bg: Color)
        requires
            old(self).w * y + x + s@.len() <= usize::MAX,
        ensures
            final(self).w == old(self).w,
            final(self).h == old(self).h,
            final(self).cells@ == put_chars(old(self).cells@, old(self).w * y + x, s@, fg, bg),
    {
        let start = self.index_of(x, y);
        let ghost chars = s@;
        let ghost cells0 = self.cells@;
        let mut offset: usize = 0;
        for ch in iter: s.chars()
            invariant
                iter.seq() == chars,
                offset == iter.index(),
                start == old(self).w * y + x,
                start + chars.len() <= usize::MAX,
                self.w == old(self).w,
                self.h == old(self).h,
                cells0 == old(self).cells@,
                self.cells@ == put_chars(cells0, start as int, chars.take(offset as int), fg, bg),
        {
            let ghost before = self.cells@;
            assert(ch == chars[offset as int]);
            if start + offset < self.cells.len() {
                self.cells[start + offset] = Cell { ch, fg, bg };
                assert(self.cells@ == before.update(start + offset, Cell { ch, fg, bg }));
            }
            assert(self.cells@.len() == before.len());
            proof {
                assert(offset < chars.len());
                let t0 = chars.take(offset as int);
                let t1 = chars.take(offset + 1);
                assert(t0.len() == offset && t1.len() == offset + 1);
                assert forall|j: int| 0 <= j < offset implies t1[j] == t0[j] by {}
                assert(t1[offset as int] == ch);
                let p1 = put_chars(cells0, start as int, t1, fg, bg);
                assert(p1.len() == cells0.len());
                assert(before.len() == cells0.len());
                assert(self.cells@.len() == p1.len());
                assert forall|i: int| 0 <= i < p1.len() implies self.cells@[i] == p1[i] by {
                    if i == start + offset {
                    } else {
                        assert(before[i] == put_chars(cells0, start as int, t0, fg, bg)[i]);
                    }
                }
                assert(self.cells@ =~= p1);
            }
            offset = offset + 1;
        }
        proof {
            assert(chars.take(chars.len() as int) =~= chars);
        }
    }

    /// The cells of `other` that differ from this grid's, with their
    /// positions, in order.
    pub fn diff(&self, other: &Self) -> (cs: Vec<Change>)
        requires
            self.w == other.w,
            self.h == other.h,
            self.w > 0 || forall|i: int|
                0 <= i < self.cells@.len() && i < other.cells@.len() ==> self.cells@[i]
                    == other.cells@[i],
        ensures
            cs@ == changes(
                self.cells@,
                other.cells@,
                self.w as int,
                if self.cells@.len() <= other.cells@.len() {
                    self.cells@.len() as int
                } else {
                    other.cells@.len() as int
                },
            ),
    {
        let mut changes: Vec<Change> = Vec::new();
        let n = if self.cells.len() <= other.cells.len() {
            self.cells.len()
        } else {
            other.cells.len()
        };

        let mut i: usize = 0;
        while i < n
            invariant
                n <= self.cells@.len(),
                n <= other.cells@.len(),
                self.w > 0 || forall|j: int|
                    0 <= j < self.cells@.len() && j < other.cells@.len() ==> self.cells@[j]
                        == other.cells@[j],
                0 <= i <= n,
                changes@ == self::changes(self.cells@, other.cells@, self.w as int, i as int),
            decreases n - i,
        {
            let a = self.cells[i];
            let b = other.cells[i];
            if a != b {
                let (x, y) = self.coord_of(i);
                changes.push((x, y, b));
            }
            proof {
                let s = self::changes(self.cells@, other.cells@, self.w as int, i + 1);
                if a != b {
                    assert(changes@ =~= s);
                } else {
                    assert(changes@ =~= s);
                }
            }
            i = i + 1;
        }

        changes
    }
}

/// Law: writing the changes from `a` to `b` into `a` gives `b`, for two
/// grids of the same size.
pub proof fn lemma_apply_diff(a: Seq<Cell>, b: Seq<Cell>, w: int)
    requires
        0 <= w <= usize::MAX,
        0 < w || a == b,
        a.len() == b.len(),
        a.len() <= usize::MAX,
    ensures
        apply_changes(a, w, changes(a, b, w, a.len() as int)) == b,
{
    if w > 0 {
        lemma_apply_diff_prefix(a, b, w, a.len() as int);
        assert(apply_changes(a, w, changes(a, b, w, a.len() as int)) =~= b);
    } else {
        lemma_no_changes(a, w, a.len() as int);
    }
}

/// A grid has no changes from itself.
proof fn lemma_no_changes(a: Seq<Cell>, w: int, n: int)
    ensures
        changes(a, a, w, n) == Seq::<Change>::empty(),
    decreases n,
{
    if n > 0 {
        lemma_no_changes(a, w, n - 1);
        assert(changes(a, a, w, n) =~= Seq::<Change>::empty());
    }
}

/// Applying the changes over the first `n` cells makes those cells equal to
/// `b`'s and leaves the others as in `a`.
proof fn lemma_apply_diff_prefix(a: Seq<Cell>, b: Seq<Cell>, w: int, n: int)
    requires
        0 < w <= usize::MAX,
        a.len() == b.len(),
        a.len() <= usize::MAX,
        0 <= n <= a.len(),
    ensures
        apply_changes(a, w, changes(a, b, w, n)).len() == a.len(),
        forall|i: int|
            0 <= i < a.len() ==> #[trigger] apply_changes(a, w, changes(a, b, w, n))[i] == if i
                < n {
                b[i]
            } else {
                a[i]
            },
    decreases n,
{
    if n > 0 {
        lemma_apply_diff_prefix(a, b, w, n - 1);
        let prev = changes(a, b, w, n - 1);
        let k = n - 1;
        if a[k] != b[k] {
            let c: Change = ((k % w) as usize, (k / w) as usize, b[k]);
            let cs = prev + seq![c];
            assert(cs.drop_last() =~= prev);
            assert(w * (k / w) + k % w == k) by (nonlinear_arith)
                requires
                    w > 0,
                    k >= 0,
            ;
            assert(0 <= k % w < w) by (nonlinear_arith)
                requires
                    w > 0,
                    k >= 0,
            ;
            assert(0 <= k / w <= k) by (nonlinear_arith)
                requires
                    w > 0,
                    k >= 0,
            ;
        } else {
            assert(prev + seq![] =~= prev);
        }
    }
}

} // verus!
