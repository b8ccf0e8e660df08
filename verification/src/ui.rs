//! What the browser window decides: where a click lands and what a click or a
//! key does to the address bar. Drawing is left to the window itself.

use vstd::prelude::*;

verus! {

/// Where the window stands on the screen and how it is divided, in pixels.
#[derive(Debug, Clone, Copy, PartialEq, Eq)]
pub struct Layout {
    /// The left edge of the window.
    pub x: i64,
    /// The top edge of the window.
    pub y: i64,
    pub width: i64,
    pub height: i64,
    /// The height of the title bar, which lies at the top of the window.
    pub title_bar_height: i64,
    /// The height of the toolbar, which lies under the title bar.
    pub toolbar_height: i64,
}

/// The part of the screen that a click lands on.
#[derive(Debug, Clone, Copy, PartialEq, Eq)]
pub enum Area {
    /// Not the window.
    Outside,
    /// The toolbar, which holds the address bar.
    Toolbar,
    /// The rest of the window.
    Content,
}

/// The part of the screen that the point `(x, y)` lies in. The edges of the
/// window belong to it; the toolbar begins at its upper edge and ends before
/// its lower one.
pub open spec fn area_of(layout: Layout, x: int, y: int) -> Area {
    let dx = x - layout.x;
    let dy = y - layout.y;
    if dx < 0 || dx > layout.width || dy < 0 || dy > layout.height {
        Area::Outside
    } else if layout.title_bar_height <= dy < layout.toolbar_height + layout.title_bar_height {
        Area::Toolbar
    } else {
        Area::Content
    }
}

/// The part of the screen that the point `(x, y)` lies in.
pub fn locate(layout: &Layout, x: i64, y: i64) -> (area: Area)
    ensures
        area == area_of(*layout, x as int, y as int),
{
    let dx: i128 = x as i128 - layout.x as i128;
    let dy: i128 = y as i128 - layout.y as i128;
    if dx < 0 || dx > layout.width as i128 || dy < 0 || dy > layout.height as i128 {
        Area::Outside
    } else if dy >= layout.title_bar_height as i128 && dy < layout.toolbar_height as i128
        + layout.title_bar_height as i128 {
        Area::Toolbar
    } else {
        Area::Content
    }
}

/// Whether keys go to the address bar.
#[derive(Debug, Clone, Copy, PartialEq, Eq)]
pub enum InputMode {
    Normal,
    Editing,
}

/// What the window has to draw after an event.
#[derive(Debug, Clone, Copy, PartialEq, Eq)]
pub enum Redraw {
    Nothing,
    /// The address bar, empty.
    Clear,
    /// The address bar, with its text.
    Update,
}

/// The address bar: its text and whether it is being edited.
#[derive(Debug, Clone, PartialEq, Eq)]
pub struct AddressBar {
    mode: InputMode,
    url: String,
}

/// What an `AddressBar` stands for.
pub ghost struct AddressBarView {
    pub mode: InputMode,
    pub url: Seq<char>,
}

impl View for AddressBar {
    type V = AddressBarView;

    closed spec fn view(&self) -> AddressBarView {
        AddressBarView { mode: self.mode, url: self.url@ }
    }
}

/// Whether `key` takes a character away: delete or backspace.
pub open spec fn is_erase(key: char) -> bool {
    key == '\u{7f}' || key == '\u{8}'
}

/// The address bar after a click on `area`, and what has to be drawn: a click
/// on the toolbar empties the bar and starts editing, a click on the rest of
/// the window ends editing, a click outside the window does nothing.
pub open spec fn after_click(bar: AddressBarView, area: Area) -> (AddressBarView, Redraw) {
    match area {
        Area::Outside => (bar, Redraw::Nothing),
        Area::Toolbar => (
            AddressBarView { mode: InputMode::Editing, url: Seq::empty() },
            Redraw::Clear,
        ),
        Area::Content => (AddressBarView { mode: InputMode::Normal, url: bar.url }, Redraw::Nothing),
    }
}

/// The address bar after the key `key`, if one was pressed, and what has to be
/// drawn: while the bar is edited, delete and backspace take its last
/// character away, if it has one, and any other key is added at its end.
pub open spec fn after_key(bar: AddressBarView, key: Option<char>) -> (AddressBarView, Redraw) {
    match (bar.mode, key) {
        (InputMode::Editing, Some(c)) => if is_erase(c) {
            (
                AddressBarView {
                    mode: bar.mode,
                    url: if bar.url.len() > 0 {
                        bar.url.drop_last()
                    } else {
                        bar.url
                    },
                },
                Redraw::Update,
            )
        } else {
            (AddressBarView { mode: bar.mode, url: bar.url.push(c) }, Redraw::Update)
        },
        _ => (bar, Redraw::Nothing),
    }
}

impl AddressBar {
    /// An empty address bar that is not being edited.
    pub fn new() -> (bar: Self)
        ensures
            bar@ == (AddressBarView { mode: InputMode::Normal, url: Seq::empty() }),
    {
        Self { mode: InputMode::Normal, url: String::new() }
    }

    pub fn mode(&self) -> (mode: InputMode)
        ensures
            mode == self@.mode,
    {
        self.mode
    }

    pub fn url(&self) -> (url: &String)
        ensures
            url@ == self@.url,
    {
        &self.url
    }

    /// Takes a click on `area`.
    pub fn click(&mut self, area: Area) -> (redraw: Redraw)
        ensures
            (final(self)@, redraw) == after_click(old(self)@, area),
    {
        match area {
            Area::Outside => Redraw::Nothing,
            Area::Toolbar => {
                self.url = String::new();
                self.mode = InputMode::Editing;
                Redraw::Clear
            },
            Area::Content => {
                self.mode = InputMode::Normal;
                Redraw::Nothing
            },
        }
    }

    /// Takes what the keyboard had: a key or nothing.
    pub fn key(&mut self, key: Option<char>) -> (redraw: Redraw)
        ensures
            (final(self)@, redraw) == after_key(old(self)@, key),
    {
        match (self.mode, key) {
            (InputMode::Editing, Some(c)) => {
                if c == '\u{7f}' || c == '\u{8}' {
                    let _ = self.url.pop();
                } else {
                    self.url.push(c);
                }
                Redraw::Update
            },
            _ => Redraw::Nothing,
        }
    }
}

} // verus!
