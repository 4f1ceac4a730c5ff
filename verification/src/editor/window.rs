use vstd::prelude::*;

use crate::layout::Vec2;

verus! {

#[derive(Debug, Clone, Copy, PartialEq, Eq, Structural)]
pub struct Cursor {
    pub x: usize,
    pub y: usize,
    /// Preferred column for vertical movement.
    pub want_x: usize,
}

impl Default for Cursor {
    fn default() -> (c: Self)
        ensures
            c == (Cursor { x: 0, y: 0, want_x: 0 }),
    {
        Cursor { x: 0, y: 0, want_x: 0 }
    }
}

#[derive(Debug, Clone, Copy, PartialEq, Eq)]
pub struct Window {
    pub bufid: usize,
    pub cursor: Cursor,
    /// The top-left viewport offset into the buffer.
    pub scroll: Vec2<usize>,
}

impl Default for Window {
    fn default() -> (w: Self)
        ensures
            w.bufid == 0,
            w.cursor == (Cursor { x: 0, y: 0, want_x: 0 }),
            w.scroll == (Vec2::<usize> { x: 0, y: 0 }),
    {
        Window { bufid: 0, cursor: Cursor::default(), scroll: Vec2::default() }
    }
}

/// Where `sync_view` puts the top row of the view.
pub open spec fn synced_scroll_y(cursor_y: int, scroll_y: int, h: int) -> int {
    if cursor_y < scroll_y {
        cursor_y
    } else if cursor_y >= scroll_y + h {
        cursor_y + 1 - h
    } else {
        scroll_y
    }
}

impl Window {
    /// Shows buffer `bufid`, with the cursor and scroll it was left with, or
    /// at the top when it has none.
    pub fn set_buf(&mut self, bufid: usize, last_view: Option<(Cursor, Vec2<usize>)>)
        ensures
            final(self).bufid == bufid,
            match last_view {
                Some((cursor, scroll)) => final(self).cursor == cursor && final(self).scroll
                    == scroll,
                None => final(self).cursor == (Cursor { x: 0, y: 0, want_x: 0 })
                    && final(self).scroll == (Vec2::<usize> { x: 0, y: 0 }),
            },
    {
        self.bufid = bufid;
        if let Some((cursor, scroll)) = last_view {
            self.cursor = cursor;
            self.scroll = scroll;
        } else {
            self.cursor = Cursor::default();
            self.scroll = Vec2::default();
        }
    }

    /// Scrolls vertically as little as needed for the cursor row to be one
    /// of the `view_h` rows on screen.
    pub fn sync_view(&mut self, view_h: u16)
        requires
            old(self).cursor.y >= old(self).scroll.y ==> old(self).scroll.y + view_h
                <= usize::MAX,
            old(self).cursor.y >= old(self).scroll.y + view_h ==> old(self).cursor.y + 1
                <= usize::MAX,
        ensures
            final(self).bufid == old(self).bufid,
            final(self).cursor == old(self).cursor,
            final(self).scroll.x == old(self).scroll.x,
            final(self).scroll.y == synced_scroll_y(
                old(self).cursor.y as int,
                old(self).scroll.y as int,
                view_h as int,
            ),
            view_h > 0 ==> final(self).scroll.y <= final(self).cursor.y < final(self).scroll.y
                + view_h,
    {
        let h = view_h as usize;

        if self.cursor.y < self.scroll.y {
            self.scroll.y = self.cursor.y;
        } else if self.cursor.y >= self.scroll.y + h {
            self.scroll.y = self.cursor.y + 1 - h;
        }
    }
}

} // verus!
