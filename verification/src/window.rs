//! A single window with a title and a place, and the size of its terminal.

use vstd::prelude::*;
use crate::geometry::{sub_floor, sub_u16, Rect};
use crate::protocol::{opt_text, texts};

verus! {

/// A window, but for the terminal in it.
pub struct Window {
    pub title: String,
    pub rect: Rect,
    pub focused: bool,
    pub minimized: bool,
    pub saved_rect: Option<Rect>,
    pub command: Option<String>,
    pub args: Vec<String>,
    pub scroll_offset: usize,
}

impl Window {
    pub fn new(title: String, rect: Rect, command: Option<String>, args: Vec<String>) -> (r: Self)
        ensures
            r.title@ == title@,
            r.rect == rect,
            !r.focused,
            !r.minimized,
            r.saved_rect is None,
            opt_text(r.command) == opt_text(command),
            texts(r.args@) == texts(args@),
            r.scroll_offset == 0,
    {
        Window {
            title,
            rect,
            focused: false,
            minimized: false,
            saved_rect: None,
            command,
            args,
            scroll_offset: 0,
        }
    }

    /// Rows and columns of the terminal in the window.
    pub fn terminal_size(&self) -> (r: (u16, u16))
        ensures
            r.0 == sub_floor(self.rect.height as int, 2),
            r.1 == sub_floor(self.rect.width as int, 2),
            2 <= self.rect.height ==> r.0 + 2 == self.rect.height,
            2 <= self.rect.width ==> r.1 + 2 == self.rect.width,
    {
        (sub_u16(self.rect.height, 2), sub_u16(self.rect.width, 2))
    }

    /// Moves and resizes the window. Returns rows and columns of its terminal.
    pub fn resize(&mut self, rect: Rect) -> (r: (u16, u16))
        ensures
            *final(self) == (Window { rect, ..*old(self) }),
            r.0 == sub_floor(rect.height as int, 2),
            r.1 == sub_floor(rect.width as int, 2),
            2 <= rect.height ==> r.0 + 2 == rect.height,
            2 <= rect.width ==> r.1 + 2 == rect.width,
    {
        self.rect = rect;
        self.terminal_size()
    }
}

} // verus!
