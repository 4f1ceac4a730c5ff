//! # Geometry and region splitting.

use vstd::prelude::*;

verus! {

#[derive(Debug, Clone, Copy, PartialEq, Eq, Structural)]
pub enum Error {
    NotEnoughSpace,
}

impl Error {
    /// The human readable text of the error.
    pub fn message(&self) -> (s: String)
        ensures
            s@ == "Not enought space"@,
    {
        String::from_str("Not enought space")
    }
}

#[derive(Debug, Clone, Copy, PartialEq, Eq)]
pub struct Vec2<T: Copy> {
    pub x: T,
    pub y: T,
}

impl<T: Copy> Vec2<T> {
    pub fn new(x: T, y: T) -> (v: Self)
        ensures
            v.x == x,
            v.y == y,
    {
        Self { x, y }
    }
}

impl Default for Vec2<usize> {
    fn default() -> (v: Self)
        ensures
            v.x == 0,
            v.y == 0,
    {
        Self { x: 0, y: 0 }
    }
}

#[derive(Debug, Clone, Copy, PartialEq, Eq, Structural)]
pub enum Split {
    Fill,
    Fixed(u16),
}

#[derive(Debug, Clone, Copy, PartialEq, Eq, Structural)]
pub struct Rect {
    pub x: u16,
    pub y: u16,
    pub w: u16,
    pub h: u16,
}

impl Default for Rect {
    fn default() -> (r: Self)
        ensures
            r == (Rect { x: 0, y: 0, w: 0, h: 0 }),
    {
        Rect { x: 0, y: 0, w: 0, h: 0 }
    }
}

// ---------------------------------------------------------------------------
// Mathematical model of splitting a length into segments.
// ---------------------------------------------------------------------------

/// The length a split asks for, when it is fixed.
pub open spec fn split_fixed(s: Split) -> int {
    match s {
        Split::Fixed(n) => n as int,
        Split::Fill => 0,
    }
}

pub open spec fn split_is_fill(s: Split) -> int {
    match s {
        Split::Fixed(_) => 0,
        Split::Fill => 1,
    }
}

/// Sum of the fixed lengths.
pub open spec fn fixed_total(splits: Seq<Split>) -> int
    decreases splits.len(),
{
    if splits.len() == 0 {
        0
    } else {
        fixed_total(splits.drop_last()) + split_fixed(splits.last())
    }
}

/// Number of `Fill` splits.
pub open spec fn fill_count(splits: Seq<Split>) -> int
    decreases splits.len(),
{
    if splits.len() == 0 {
        0
    } else {
        fill_count(splits.drop_last()) + split_is_fill(splits.last())
    }
}

/// Splitting succeeds exactly when every fixed segment and one cell for each
/// fill segment fit in the available length.
pub open spec fn fits(splits: Seq<Split>, available: int) -> bool {
    fixed_total(splits) + fill_count(splits) <= available
}

/// What is left for the fill segments.
pub open spec fn fill_total(splits: Seq<Split>, available: int) -> int {
    available - fixed_total(splits)
}

/// The length each fill segment but the last one gets.
pub open spec fn fill_len(splits: Seq<Split>, available: int) -> int {
    if fill_count(splits) > 0 {
        fill_total(splits, available) / fill_count(splits)
    } else {
        0
    }
}

/// Split `i` is the last `Fill` split.
pub open spec fn is_last_fill(splits: Seq<Split>, i: int) -> bool {
    &&& splits[i] is Fill
    &&& fill_count(splits.take(i + 1)) == fill_count(splits)
}

/// The length of segment `i`: a fixed split gets its own length, a fill
/// split the even share of what is left, and the last fill split also the
/// remainder of the division.
pub open spec fn segment_len(splits: Seq<Split>, available: int, i: int) -> int {
    match splits[i] {
        Split::Fixed(n) => n as int,
        Split::Fill => if is_last_fill(splits, i) {
            fill_total(splits, available) - fill_len(splits, available) * (fill_count(splits) - 1)
        } else {
            fill_len(splits, available)
        },
    }
}

/// Where segment `i` starts, relative to the start of the split region.
pub open spec fn segment_offset(splits: Seq<Split>, available: int, i: int) -> int
    decreases i,
{
    if i <= 0 {
        0
    } else {
        segment_offset(splits, available, i - 1) + segment_len(splits, available, i - 1)
    }
}

/// The fill counter of the splitting loop never passes `u16::MAX` before the
/// fixed lengths have overflowed.
pub open spec fn fill_count_fits(splits: Seq<Split>) -> bool {
    forall|i: int|
        0 <= i < splits.len() && splits[i] is Fill && fill_count(#[trigger] splits.take(i))
            >= u16::MAX ==> fixed_total(splits.take(i)) > u16::MAX
}

proof fn lemma_take_step(splits: Seq<Split>, i: int)
    requires
        0 <= i < splits.len(),
    ensures
        fixed_total(splits.take(i + 1)) == fixed_total(splits.take(i)) + split_fixed(splits[i]),
        fill_count(splits.take(i + 1)) == fill_count(splits.take(i)) + split_is_fill(splits[i]),
{
    assert(splits.take(i + 1).drop_last() =~= splits.take(i));
}

proof fn lemma_totals_nonneg(splits: Seq<Split>)
    ensures
        0 <= fixed_total(splits),
        0 <= fill_count(splits),
    decreases splits.len(),
{
    if splits.len() > 0 {
        lemma_totals_nonneg(splits.drop_last());
    }
}

proof fn lemma_prefix_monotone(splits: Seq<Split>, i: int, j: int)
    requires
        0 <= i <= j <= splits.len(),
    ensures
        fixed_total(splits.take(i)) <= fixed_total(splits.take(j)),
        fill_count(splits.take(i)) <= fill_count(splits.take(j)),
        0 <= fixed_total(splits.take(i)),
        0 <= fill_count(splits.take(i)),
    decreases j - i,
{
    lemma_totals_nonneg(splits.take(i));
    if i < j {
        lemma_prefix_monotone(splits, i, j - 1);
        lemma_take_step(splits, j - 1);
    }
}

proof fn lemma_take_all(splits: Seq<Split>)
    ensures
        splits.take(splits.len() as int) == splits,
{
    assert(splits.take(splits.len() as int) =~= splits);
}

/// A fill split after which no fill split follows is the only one with that
/// property.
proof fn lemma_last_fill_unique(splits: Seq<Split>, i: int, k: int)
    requires
        0 <= i < splits.len(),
        0 <= k < splits.len(),
        is_last_fill(splits, i),
        is_last_fill(splits, k),
    ensures
        i == k,
{
    if i < k {
        lemma_prefix_monotone(splits, i + 1, k);
        lemma_take_step(splits, k);
    } else if k < i {
        lemma_prefix_monotone(splits, k + 1, i);
        lemma_take_step(splits, i);
    }
}

proof fn lemma_fill_share(total: int, count: int, k: int)
    requires
        0 <= total,
        0 < count,
        0 <= k <= count,
    ensures
        0 <= (total / count) * k <= total,
        (total / count) * (k + 1) == (total / count) * k + total / count,
{
    assert(0 <= (total / count) * k <= (total / count) * count) by (nonlinear_arith)
        requires
            0 <= total,
            0 < count,
            0 <= k <= count,
    ;
    assert((total / count) * count <= total) by (nonlinear_arith)
        requires
            0 <= total,
            0 < count,
    ;
    assert((total / count) * (k + 1) == (total / count) * k + total / count) by (nonlinear_arith);
}

/// The segments start one after another: up to split `i`, the offset is the
/// fixed lengths so far plus the share of each fill split so far, and once
/// the last fill split is passed, the whole fill total.
proof fn lemma_offset_closed_form(splits: Seq<Split>, available: int, i: int)
    requires
        0 <= i <= splits.len(),
        fits(splits, available),
    ensures
        segment_offset(splits, available, i) == fixed_total(splits.take(i)) + if fill_count(
            splits,
        ) > 0 && fill_count(splits.take(i)) == fill_count(splits) {
            fill_total(splits, available)
        } else {
            fill_len(splits, available) * fill_count(splits.take(i))
        },
    decreases i,
{
    lemma_take_all(splits);
    lemma_prefix_monotone(splits, i, splits.len() as int);
    if i == 0 {
        assert(splits.take(0) =~= Seq::<Split>::empty());
    } else {
        lemma_offset_closed_form(splits, available, i - 1);
        lemma_take_step(splits, i - 1);
        lemma_prefix_monotone(splits, i - 1, splits.len() as int);
        let f = fill_count(splits);
        let fc = fill_count(splits.take(i - 1));
        if f > 0 {
            lemma_fill_share(fill_total(splits, available), f, fc);
        }
    }
}

/// Law: when splitting succeeds, the segments cover the whole available
/// length if some split fills, and exactly the fixed lengths otherwise.
pub proof fn lemma_segments_cover(splits: Seq<Split>, available: int)
    requires
        fits(splits, available),
    ensures
        fill_count(splits) > 0 ==> segment_offset(splits, available, splits.len() as int)
            == available,
        fill_count(splits) == 0 ==> segment_offset(splits, available, splits.len() as int)
            == fixed_total(splits),
{
    lemma_offset_closed_form(splits, available, splits.len() as int);
    lemma_take_all(splits);
}

/// Law: every segment of a successful split has the length it asked for, or
/// at least one cell if it fills.
pub proof fn lemma_segment_len_bounds(splits: Seq<Split>, available: int, i: int)
    requires
        fits(splits, available),
        0 <= i < splits.len(),
    ensures
        splits[i] is Fixed ==> segment_len(splits, available, i) == split_fixed(splits[i]),
        splits[i] is Fill ==> 1 <= segment_len(splits, available, i),
{
    lemma_take_all(splits);
    lemma_prefix_monotone(splits, i, i + 1);
    lemma_prefix_monotone(splits, i + 1, splits.len() as int);
    lemma_take_step(splits, i);
    lemma_prefix_monotone(splits, 0, splits.len() as int);
    if splits[i] is Fill {
        let f = fill_count(splits);
        let t = fill_total(splits, available);
        assert(f >= 1);
        assert(t >= f);
        assert(t / f >= 1 && t - (t / f) * (f - 1) >= t / f) by (nonlinear_arith)
            requires
                t >= f,
                f >= 1,
        ;
    }
}

/// Computes the length of each segment of `available` cells.
fn compute_segments<const N: usize>(splits: &[Split; N], available: u16) -> (res: Result<
    [u16; N],
    Error,
>)
    requires
        fill_count_fits(splits@),
    ensures
        match res {
            Ok(out) => fits(splits@, available as int) && forall|i: int|
                0 <= i < N ==> out@[i] as int == segment_len(splits@, available as int, i),
            Err(e) => e == Error::NotEnoughSpace && !fits(splits@, available as int),
        },
{
    let ghost s = splits@;
    let mut fixed_total: u16 = 0;
    let mut fill_count: u16 = 0;
    let mut last_fill_index: Option<usize> = None;

    let mut i: usize = 0;
    while i < N
        invariant
            s == splits@,
            s.len() == N,
            fill_count_fits(s),
            0 <= i <= N,
            fixed_total as int == self::fixed_total(s.take(i as int)),
            fill_count as int == self::fill_count(s.take(i as int)),
            match last_fill_index {
                None => self::fill_count(s.take(i as int)) == 0,
                Some(k) => k < i && s[k as int] is Fill && self::fill_count(s.take(k + 1))
                    == self::fill_count(s.take(i as int)),
            },
        decreases N - i,
    {
        proof {
            lemma_take_step(s, i as int);
            lemma_prefix_monotone(s, 0, i as int);
        }
        match splits[i] {
            Split::Fixed(n) => {
                match fixed_total.checked_add(n) {
                    Some(t) => fixed_total = t,
                    None => {
                        proof {
                            lemma_prefix_monotone(s, i + 1, N as int);
                            lemma_take_all(s);
                        }
                        return Err(Error::NotEnoughSpace);
                    },
                }
            },
            Split::Fill => {
                assert(s.take(i as int) == splits@.take(i as int));
                fill_count = fill_count + 1;
                last_fill_index = Some(i);
            },
        }
        i = i + 1;
    }
    proof {
        lemma_take_all(s);
    }

    let min_required = match fixed_total.checked_add(fill_count) {
        Some(m) => m,
        None => return Err(Error::NotEnoughSpace),
    };

    if min_required > available {
        return Err(Error::NotEnoughSpace);
    }

    let fill_total = available - fixed_total;
    let fill_len = if fill_count > 0 {
        fill_total / fill_count
    } else {
        0
    };

    let mut out = [0u16; N];
    let mut used_fill: u16 = 0;

    let mut i: usize = 0;
    while i < N
        invariant
            s == splits@,
            s.len() == N,
            fits(s, available as int),
            0 <= i <= N,
            fixed_total as int == self::fixed_total(s),
            fill_count as int == self::fill_count(s),
            fill_total as int == self::fill_total(s, available as int),
            fill_len as int == self::fill_len(s, available as int),
            match last_fill_index {
                None => self::fill_count(s) == 0,
                Some(k) => k < N && is_last_fill(s, k as int),
            },
            used_fill as int == fill_len * if self::fill_count(s.take(i as int)) == fill_count
                && fill_count > 0 {
                fill_count - 1
            } else {
                self::fill_count(s.take(i as int))
            },
            forall|j: int| 0 <= j < i ==> out@[j] as int == segment_len(s, available as int, j),
        decreases N - i,
    {
        proof {
            lemma_take_step(s, i as int);
            lemma_prefix_monotone(s, i as int, N as int);
            lemma_prefix_monotone(s, i + 1, N as int);
            lemma_take_all(s);
            if fill_count > 0 {
                lemma_fill_share(fill_total as int, fill_count as int, self::fill_count(s.take(i as int)));
            }
        }
        let is_last = match last_fill_index {
            Some(k) => k == i,
            None => false,
        };
        let len = match splits[i] {
            Split::Fixed(n) => n,
            Split::Fill => {
                if is_last {
                    fill_total - used_fill
                } else {
                    proof {
                        if is_last_fill(s, i as int) {
                            lemma_last_fill_unique(s, i as int, last_fill_index.unwrap() as int);
                        }
                        lemma_fill_share(
                            fill_total as int,
                            fill_count as int,
                            self::fill_count(s.take(i as int)) + 1,
                        );
                    }
                    used_fill = used_fill + fill_len;
                    fill_len
                }
            },
        };
        out[i] = len;
        i = i + 1;
    }

    Ok(out)
}

impl Rect {
    pub fn new(x: u16, y: u16, w: u16, h: u16) -> (r: Self)
        ensures
            r == (Rect { x, y, w, h }),
    {
        Self { x, y, w, h }
    }

    /// Splits the rectangle into columns, left to right.
    pub fn hsplit<const N: usize>(&self, splits: [Split; N]) -> (res: Result<[Rect; N], Error>)
        requires
            fill_count_fits(splits@),
            fits(splits@, self.w as int) ==> self.x + segment_offset(
                splits@,
                self.w as int,
                N as int,
            ) <= u16::MAX,
        ensures
            match res {
                Ok(out) => fits(splits@, self.w as int) && forall|i: int|
                    0 <= i < N ==> out@[i] == (Rect {
                        x: (self.x + segment_offset(splits@, self.w as int, i)) as u16,
                        y: self.y,
                        w: segment_len(splits@, self.w as int, i) as u16,
                        h: self.h,
                    }),
                Err(e) => e == Error::NotEnoughSpace && !fits(splits@, self.w as int),
            },
    {
        let lengths = compute_segments(&splits, self.w)?;
        let ghost s = splits@;
        let ghost avail = self.w as int;

        let mut x = self.x;
        let mut out = [Rect::default(); N];

        let mut i: usize = 0;
        while i < N
            invariant
                0 <= i <= N,
                s.len() == N,
                fits(s, avail),
                self.x + segment_offset(s, avail, N as int) <= u16::MAX,
                forall|j: int| 0 <= j < N ==> lengths@[j] as int == segment_len(s, avail, j),
                x as int == self.x + segment_offset(s, avail, i as int),
                forall|j: int|
                    0 <= j < i ==> out@[j] == (Rect {
                        x: (self.x + segment_offset(s, avail, j)) as u16,
                        y: self.y,
                        w: segment_len(s, avail, j) as u16,
                        h: self.h,
                    }),
            decreases N - i,
        {
            let w = lengths[i];
            proof {
                lemma_offset_monotone(s, avail, i + 1, N as int);
            }
            out[i] = Rect::new(x, self.y, w, self.h);
            x = x + w;
            i = i + 1;
        }

        Ok(out)
    }

    /// Splits the rectangle into rows, top to bottom.
    pub fn vsplit<const N: usize>(&self, splits: [Split; N]) -> (res: Result<[Rect; N], Error>)
        requires
            fill_count_fits(splits@),
            fits(splits@, self.h as int) ==> self.y + segment_offset(
                splits@,
                self.h as int,
                N as int,
            ) <= u16::MAX,
        ensures
            match res {
                Ok(out) => fits(splits@, self.h as int) && forall|i: int|
                    0 <= i < N ==> out@[i] == (Rect {
                        x: self.x,
                        y: (self.y + segment_offset(splits@, self.h as int, i)) as u16,
                        w: self.w,
                        h: segment_len(splits@, self.h as int, i) as u16,
                    }),
                Err(e) => e == Error::NotEnoughSpace && !fits(splits@, self.h as int),
            },
    {
        let lengths = compute_segments(&splits, self.h)?;
        let ghost s = splits@;
        let ghost avail = self.h as int;

        let mut y = self.y;
        let mut out = [Rect::default(); N];

        let mut i: usize = 0;
        while i < N
            invariant
                0 <= i <= N,
                s.len() == N,
                fits(s, avail),
                self.y + segment_offset(s, avail, N as int) <= u16::MAX,
                forall|j: int| 0 <= j < N ==> lengths@[j] as int == segment_len(s, avail, j),
                y as int == self.y + segment_offset(s, avail, i as int),
                forall|j: int|
                    0 <= j < i ==> out@[j] == (Rect {
                        x: self.x,
                        y: (self.y + segment_offset(s, avail, j)) as u16,
                        w: self.w,
                        h: segment_len(s, avail, j) as u16,
                    }),
            decreases N - i,
        {
            let h = lengths[i];
            proof {
                lemma_offset_monotone(s, avail, i + 1, N as int);
            }
            out[i] = Rect::new(self.x, y, self.w, h);
            y = y + h;
            i = i + 1;
        }

        Ok(out)
    }
}

pub struct Layout {
    pub screen: Rect,
    pub main: Rect,
    pub gutter: Rect,
    pub buffer: Rect,
    pub status: Rect,
}

/// Splitting a length into a fill segment followed by a fixed one.
proof fn lemma_fill_then_fixed(splits: Seq<Split>, n: u16, available: int)
    requires
        splits =~= seq![Split::Fill, Split::Fixed(n)],
    ensures
        fill_count_fits(splits),
        fits(splits, available) <==> n + 1 <= available,
        fits(splits, available) ==> segment_len(splits, available, 0) == available - n
            && segment_len(splits, available, 1) == n && segment_offset(splits, available, 0) == 0
            && segment_offset(splits, available, 1) == available - n && segment_offset(
            splits,
            available,
            2,
        ) == available,
{
    let e = Seq::<Split>::empty();
    let a = seq![Split::Fill];
    assert(a.drop_last() == e);
    assert(splits.drop_last() == a);
    assert(splits.take(0) == e);
    assert(splits.take(1) == a);
    assert(splits.take(2) == splits);
    assert(fill_count(e) == 0 && fixed_total(e) == 0);
    assert(fill_count(a) == 1 && fixed_total(a) == 0);
    assert(fill_count(splits) == 1 && fixed_total(splits) == n);
    assert(is_last_fill(splits, 0));
    reveal_with_fuel(segment_offset, 3);
}

/// Splitting a length into a fixed segment followed by a fill one.
proof fn lemma_fixed_then_fill(splits: Seq<Split>, n: u16, available: int)
    requires
        splits =~= seq![Split::Fixed(n), Split::Fill],
    ensures
        fill_count_fits(splits),
        fits(splits, available) <==> n + 1 <= available,
        fits(splits, available) ==> segment_len(splits, available, 0) == n && segment_len(
            splits,
            available,
            1,
        ) == available - n && segment_offset(splits, available, 0) == 0 && segment_offset(
            splits,
            available,
            1,
        ) == n && segment_offset(splits, available, 2) == available,
{
    let e = Seq::<Split>::empty();
    let a = seq![Split::Fixed(n)];
    assert(a.drop_last() == e);
    assert(splits.drop_last() == a);
    assert(splits.take(0) == e);
    assert(splits.take(1) == a);
    assert(splits.take(2) == splits);
    assert(fill_count(e) == 0 && fixed_total(e) == 0);
    assert(fill_count(a) == 0 && fixed_total(a) == n);
    assert(fill_count(splits) == 1 && fixed_total(splits) == n);
    assert(is_last_fill(splits, 1));
    reveal_with_fuel(segment_offset, 3);
}

impl Layout {
    /// Lays the screen out as a main area above a one-row status line, the
    /// main area as a five-column gutter left of the buffer view.
    pub fn from_screen(screen: Rect) -> (res: Result<Self, Error>)
        requires
            screen.h >= 2 ==> screen.y + screen.h <= u16::MAX,
            screen.h >= 2 && screen.w >= 6 ==> screen.x + screen.w <= u16::MAX,
        ensures
            match res {
                Ok(l) => {
                    &&& screen.h >= 2 && screen.w >= 6
                    &&& l.screen == screen
                    &&& l.main == Rect { x: screen.x, y: screen.y, w: screen.w, h: (screen.h - 1) as u16 }
                    &&& l.status == Rect { x: screen.x, y: (screen.y + screen.h - 1) as u16, w: screen.w, h: 1 }
                    &&& l.gutter == Rect { x: screen.x, y: screen.y, w: 5, h: (screen.h - 1) as u16 }
                    &&& l.buffer == Rect {
                        x: (screen.x + 5) as u16,
                        y: screen.y,
                        w: (screen.w - 5) as u16,
                        h: (screen.h - 1) as u16,
                    }
                },
                Err(e) => e == Error::NotEnoughSpace && !(screen.h >= 2 && screen.w >= 6),
            },
    {
        let rows = [Split::Fill, Split::Fixed(1)];
        proof {
            lemma_fill_then_fixed(rows@, 1, screen.h as int);
        }
        let rows_out = screen.vsplit(rows)?;
        let main = rows_out[0];
        let status = rows_out[1];
        let cols = [Split::Fixed(5), Split::Fill];
        proof {
            lemma_fixed_then_fill(cols@, 5, main.w as int);
        }
        let cols_out = main.hsplit(cols)?;
        let gutter = cols_out[0];
        let buffer = cols_out[1];

        Ok(Self { screen, main, gutter, buffer, status })
    }
}

/// Segment offsets only grow.
proof fn lemma_offset_nonneg(splits: Seq<Split>, available: int, i: int)
    requires
        fits(splits, available),
        0 <= i <= splits.len(),
    ensures
        0 <= segment_offset(splits, available, i),
    decreases i,
{
    if i > 0 {
        lemma_offset_nonneg(splits, available, i - 1);
        lemma_segment_len_bounds(splits, available, i - 1);
    }
}

proof fn lemma_offset_monotone(splits: Seq<Split>, available: int, i: int, j: int)
    requires
        fits(splits, available),
        0 <= i <= j <= splits.len(),
    ensures
        0 <= segment_offset(splits, available, i) <= segment_offset(splits, available, j),
    decreases j - i,
{
    lemma_offset_nonneg(splits, available, i);
    if i < j {
        lemma_offset_monotone(splits, available, i, j - 1);
        lemma_segment_len_bounds(splits, available, j - 1);
    }
}

} // verus!
