//! The SD-card file browser: lists a directory, moves a cursor over the
//! entries, opens sub-directories and goes back up.

use vstd::prelude::*;
use vstd::string::*;
use crate::app::{Command, NodeResult, ResultView};
use crate::app::ui_node::UiNode;
use crate::input::EncoderEvent;
use crate::sd_card::{
    DirEntryInfo, FileSystem, SdError, entries_sorted, format_size, format_size_spec, join_path,
    join_path_spec, list_directory, sd_error_text, sort_entries, split_path, split_path_spec,
    law_split_join, alike, listing_view, fs_listing,
};

verus! {

/// What the browser holds, as mathematical values.
pub struct SdBrowserView {
    /// Path of the directory shown, built from short names (`""` is the root).
    pub current_path: Seq<char>,
    /// Long names of the directories entered, outermost first.
    pub path_stack: Seq<Seq<char>>,
    /// The listing, in browsing order.
    pub entries: Seq<DirEntryInfo>,
    /// Index of the entry under the cursor.
    pub selected: nat,
    /// The text of the error of the last listing, if it failed.
    pub error_msg: Option<Seq<char>>,
    /// Index of the first entry on screen.
    pub scroll_offset: nat,
    /// How many entries fit on screen, as last measured.
    pub view_rows: nat,
}

/// The browser when it is created: at the root, nothing listed yet, room for
/// five rows.
pub open spec fn sd_initial() -> SdBrowserView {
    SdBrowserView {
        current_path: Seq::empty(),
        path_stack: Seq::empty(),
        entries: Seq::empty(),
        selected: 0,
        error_msg: None,
        scroll_offset: 0,
        view_rows: 5,
    }
}

/// The browser's invariant: at least one row on screen; the cursor is on an
/// entry (or at 0 when there is none) and not above the first row shown; the
/// listing is in browsing order.
pub open spec fn sd_wf(v: SdBrowserView) -> bool {
    &&& v.view_rows >= 1
    &&& (v.entries.len() == 0 ==> v.selected == 0)
    &&& (v.entries.len() > 0 ==> v.selected < v.entries.len() && v.scroll_offset <= v.selected)
    &&& entries_sorted(v.entries)
}

/// The first row shown after the cursor moved to `selected`: unchanged while
/// the cursor stays on screen, else scrolled just enough to show it.
pub open spec fn scroll_for(selected: nat, offset: nat, rows: nat) -> nat {
    if selected >= offset + rows {
        (selected - (rows - 1)) as nat
    } else if selected < offset {
        selected
    } else {
        offset
    }
}

/// `v` with the cursor at `selected` and the first row shown at `offset`.
pub open spec fn with_cursor(v: SdBrowserView, selected: nat, offset: nat) -> SdBrowserView {
    SdBrowserView {
        current_path: v.current_path,
        path_stack: v.path_stack,
        entries: v.entries,
        selected: selected,
        error_msg: v.error_msg,
        scroll_offset: offset,
        view_rows: v.view_rows,
    }
}

/// `v` showing the directory `path`, entered through `stack`.
pub open spec fn with_location(
    v: SdBrowserView,
    path: Seq<char>,
    stack: Seq<Seq<char>>,
) -> SdBrowserView {
    SdBrowserView {
        current_path: path,
        path_stack: stack,
        entries: v.entries,
        selected: v.selected,
        error_msg: v.error_msg,
        scroll_offset: v.scroll_offset,
        view_rows: v.view_rows,
    }
}

/// `v` measured with `rows` rows on screen.
pub open spec fn with_rows(v: SdBrowserView, rows: nat) -> SdBrowserView {
    SdBrowserView {
        current_path: v.current_path,
        path_stack: v.path_stack,
        entries: v.entries,
        selected: v.selected,
        error_msg: v.error_msg,
        scroll_offset: v.scroll_offset,
        view_rows: rows,
    }
}

/// The cursor one entry down (it stays on the last entry).
pub open spec fn cursor_down(v: SdBrowserView) -> SdBrowserView {
    let sel = if v.entries.len() > 0 && v.selected + 1 < v.entries.len() {
        v.selected + 1
    } else {
        v.selected
    };
    with_cursor(v, sel, scroll_for(sel, v.scroll_offset, v.view_rows))
}

/// The cursor one entry up (it stays on the first entry).
pub open spec fn cursor_up(v: SdBrowserView) -> SdBrowserView {
    let sel = if v.selected > 0 {
        (v.selected - 1) as nat
    } else {
        v.selected
    };
    with_cursor(v, sel, scroll_for(sel, v.scroll_offset, v.view_rows))
}

/// Whether the cursor is on a directory.
pub open spec fn on_directory(v: SdBrowserView) -> bool {
    v.selected < v.entries.len() && v.entries[v.selected as int].is_dir
}

/// `v` moved into the directory under the cursor: its short name is appended
/// to the path, its long name pushed on the stack.
pub open spec fn enter_directory(v: SdBrowserView) -> SdBrowserView {
    let e = v.entries[v.selected as int];
    with_location(v, join_path_spec(v.current_path, e.short_name@), v.path_stack.push(e.name@))
}

/// `v` moved to the parent directory: the path loses its last component, the
/// stack its last name.
pub open spec fn leave_directory(v: SdBrowserView) -> SdBrowserView {
    let stack = if v.path_stack.len() > 0 {
        v.path_stack.drop_last()
    } else {
        v.path_stack
    };
    with_location(v, split_path_spec(v.current_path).0, stack)
}

/// `new` is `old` after taking in `listing`: a successful listing is shown in
/// browsing order (entries that sort alike in the order listed) with the cursor and the view at the top and no error; a
/// failed one empties the listing, puts the cursor at 0 and records the
/// error's text (the view's first row stays where it was).
pub open spec fn listing_applied(
    old: SdBrowserView,
    new: SdBrowserView,
    listing: Result<Seq<DirEntryInfo>, SdError>,
) -> bool {
    &&& new.current_path == old.current_path
    &&& new.path_stack == old.path_stack
    &&& new.view_rows == old.view_rows
    &&& new.selected == 0
    &&& match listing {
        Ok(es) => {
            &&& new.entries.to_multiset() == es.to_multiset()
            &&& entries_sorted(new.entries)
            &&& forall|k: DirEntryInfo| #[trigger] alike(new.entries, k) == alike(es, k)
            &&& new.scroll_offset == 0
            &&& new.error_msg == None::<Seq<char>>
        },
        Err(e) => {
            &&& new.entries == Seq::<DirEntryInfo>::empty()
            &&& new.scroll_offset == old.scroll_offset
            &&& new.error_msg == Some(sd_error_text(e))
        },
    }
}

/// `new` is `old` after listing its directory again: it took in what the
/// installed file system lists for `old`'s path (`NotInitialized` when none
/// is installed).
pub open spec fn refreshed<F: FileSystem>(old: SdBrowserView, new: SdBrowserView, fs: Option<F>) -> bool {
    listing_applied(old, new, fs_listing(fs, old.current_path))
}

/// One input event on the browser: turning moves the cursor; confirm on a
/// directory enters it and lists it; back at the root leaves the browser,
/// elsewhere it goes up one directory and lists it; nothing else changes.
pub open spec fn sd_step<F: FileSystem>(
    old: SdBrowserView,
    event: EncoderEvent,
    fs: Option<F>,
    new: SdBrowserView,
    result: ResultView,
) -> bool {
    match event {
        EncoderEvent::Clockwise => result == ResultView::Stay && new == cursor_down(old),
        EncoderEvent::CounterClockwise => result == ResultView::Stay && new == cursor_up(old),
        EncoderEvent::ConfirmReleased => result == ResultView::Stay && if on_directory(old) {
            refreshed(enter_directory(old), new, fs)
        } else {
            new == old
        },
        EncoderEvent::BackPressed => if old.current_path.len() == 0 {
            result == ResultView::Pop && new == old
        } else {
            result == ResultView::Stay && refreshed(leave_directory(old), new, fs)
        },
        _ => result == ResultView::Stay && new == old,
    }
}

/// How many entries fit below the title (3 rows) and above the hint (1 row)
/// of a screen `height` rows high; at least one.
pub open spec fn visible_rows_spec(height: nat) -> nat {
    if height >= 5 {
        (height - 4) as nat
    } else {
        1
    }
}

/// How a row of the listing is drawn.
#[derive(Debug, Clone, Copy, PartialEq, Eq, Structural)]
pub enum RowStyle {
    /// The entry under the cursor.
    Selected,
    /// A directory.
    Directory,
    /// A file.
    File,
}

/// One row of the listing as drawn.
#[derive(Debug, Clone)]
pub struct ListRow {
    /// The row's text.
    pub label: String,
    /// How it is drawn.
    pub style: RowStyle,
}

/// `n` spaces.
pub open spec fn spaces(n: nat) -> Seq<char> {
    Seq::new(n, |i: int| ' ')
}

/// `s` padded with spaces on the right to `width` characters (left-aligned,
/// as `{:<width$}` does); longer text is kept whole.
pub open spec fn pad_right(s: Seq<char>, width: nat) -> Seq<char> {
    if s.len() < width {
        s + spaces((width - s.len()) as nat)
    } else {
        s
    }
}

/// The text of a listing row in a list `inner` cells wide: a directory is
/// `[name/]` with the name padded to `inner - 3`; a file is its name padded
/// to `inner - 10`, a space and its size.
pub open spec fn row_label(e: DirEntryInfo, inner: nat) -> Seq<char> {
    if e.is_dir {
        let w = if inner >= 3 {
            (inner - 3) as nat
        } else {
            0nat
        };
        seq!['['] + pad_right(e.name@, w) + seq!['/', ']']
    } else {
        let w = if inner >= 10 {
            (inner - 10) as nat
        } else {
            0nat
        };
        pad_right(e.name@, w) + seq![' '] + format_size_spec(e.size as nat)
    }
}

/// The style of the row of entry `index`.
pub open spec fn row_style(v: SdBrowserView, index: nat) -> RowStyle {
    if index == v.selected {
        RowStyle::Selected
    } else if v.entries[index as int].is_dir {
        RowStyle::Directory
    } else {
        RowStyle::File
    }
}

/// Index one past the last entry shown with `rows` rows from the first row
/// shown.
pub open spec fn window_end(v: SdBrowserView, rows: nat) -> nat {
    if v.scroll_offset + rows < v.entries.len() {
        v.scroll_offset + rows
    } else {
        v.entries.len()
    }
}

/// `rows` are the rows shown with `visible_rows` rows in a list
/// `list_width` cells wide (two of them are its border): one per entry from
/// the first row shown, as many as fit, each with its text and style.
pub open spec fn shows_rows(
    v: SdBrowserView,
    visible_rows: nat,
    list_width: nat,
    rows: Seq<ListRow>,
) -> bool {
    &&& rows.len() == if v.entries.len() == 0 {
        0
    } else {
        window_end(v, visible_rows) - v.scroll_offset
    }
    &&& forall|i: int|
        0 <= i < rows.len() ==> {
            let k = v.scroll_offset + i;
            &&& (#[trigger] rows[i]).label@ == row_label(
                v.entries[k],
                if list_width >= 2 {
                    (list_width - 2) as nat
                } else {
                    0nat
                },
            )
            &&& rows[i].style == row_style(v, k as nat)
        }
}

/// What the browser's body shows.
#[derive(Debug)]
pub enum BrowserBody {
    /// The error of the last listing, as its line of text.
    Error(String),
    /// The text shown for an empty directory.
    Empty(&'static str),
    /// The rows of the listing shown.
    Rows(Vec<ListRow>),
}

/// Appends `s` padded with spaces on the right to `width` characters.
fn push_padded(out: &mut String, s: &str, width: usize)
    ensures
        final(out)@ == old(out)@ + pad_right(s@, width as nat),
{
    out.append(s);
    let n = s.unicode_len();
    if n < width {
        let pad = width - n;
        let mut k: usize = 0;
        assert(spaces(0) =~= Seq::<char>::empty());
        while k < pad
            invariant
                k <= pad,
                out@ =~= old(out)@ + s@ + spaces(k as nat),
            decreases pad - k,
        {
            out.append(" ");
            proof {
                reveal_strlit(" ");
                assert(spaces((k + 1) as nat) =~= spaces(k as nat) + " "@);
            }
            k = k + 1;
        }
    }
}

/// The text of a listing row in a list `inner` cells wide.
fn entry_label(e: &DirEntryInfo, inner: usize) -> (r: String)
    ensures
        r@ == row_label(*e, inner as nat),
{
    let mut t = String::new();
    if e.is_dir {
        t.append("[");
        push_padded(&mut t, e.name.as_str(), inner.saturating_sub(3));
        t.append("/]");
        proof {
            reveal_strlit("[");
            reveal_strlit("/]");
        }
    } else {
        push_padded(&mut t, e.name.as_str(), inner.saturating_sub(10));
        t.append(" ");
        let size = format_size(e.size);
        t.append(size.as_str());
        proof {
            reveal_strlit(" ");
        }
    }
    t
}

/// The file browser screen.
#[derive(Debug)]
pub struct SdBrowserNode {
    current_path: String,
    path_stack: Vec<String>,
    entries: Vec<DirEntryInfo>,
    selected: usize,
    error_msg: Option<String>,
    scroll_offset: usize,
    cached_visible_rows: usize,
}

impl View for SdBrowserNode {
    type V = SdBrowserView;

    closed spec fn view(&self) -> SdBrowserView {
        SdBrowserView {
            current_path: self.current_path@,
            path_stack: self.path_stack@.map_values(|s: String| s@),
            entries: self.entries@,
            selected: self.selected as nat,
            error_msg: match self.error_msg {
                Some(s) => Some(s@),
                None => None,
            },
            scroll_offset: self.scroll_offset as nat,
            view_rows: self.cached_visible_rows as nat,
        }
    }
}

impl SdBrowserNode {
    /// The browser at the root, with nothing listed yet (entering it lists
    /// the root).
    pub fn new() -> (r: Self)
        ensures
            r@ == sd_initial(),
    {
        let r = SdBrowserNode {
            current_path: String::new(),
            path_stack: Vec::new(),
            entries: Vec::new(),
            selected: 0,
            error_msg: None,
            scroll_offset: 0,
            cached_visible_rows: 5,
        };
        assert(r@.path_stack =~= Seq::<Seq<char>>::empty());
        assert(r@.entries =~= Seq::<DirEntryInfo>::empty());
        assert(r@.current_path =~= Seq::<char>::empty());
        r
    }

    /// Takes in the result of listing the current directory: a listing is
    /// put in browsing order, an error is recorded.
    pub fn apply_listing(&mut self, listing: Result<Vec<DirEntryInfo>, SdError>)
        ensures
            listing_applied(old(self)@, final(self)@, listing_view(listing)),
    {
        match listing {
            Ok(entries) => {
                self.entries = sort_entries(entries);
                self.selected = 0;
                self.scroll_offset = 0;
                self.error_msg = None;
            },
            Err(e) => {
                self.entries.clear();
                self.selected = 0;
                self.error_msg = Some(String::from_str(e.debug_name()));
            },
        }
    }

    /// Lists the current directory again.
    pub fn refresh<F: FileSystem>(&mut self, fs: &mut Option<F>)
        ensures
            refreshed(old(self)@, final(self)@, *old(fs)),
            (*final(fs) is Some) == (*old(fs) is Some),
    {
        let listing = list_directory(fs, self.current_path.as_str());
        let ghost l = listing_view(listing);
        self.apply_listing(listing);
        assert(listing_applied(old(self)@, self@, l));
    }

    /// How many entries fit on a screen `area_height` rows high.
    pub fn visible_rows(&self, area_height: u16) -> (r: usize)
        ensures
            r == visible_rows_spec(area_height as nat),
    {
        let content_height = area_height.saturating_sub(4);
        let rows = content_height as usize;
        if rows > 1 {
            rows
        } else {
            1
        }
    }

    /// Records how many entries fit on the screen just drawn, `area_height`
    /// rows high; the cursor keeps to it from the next event on.
    pub fn cache_visible_rows(&mut self, area_height: u16)
        ensures
            final(self)@ == with_rows(old(self)@, visible_rows_spec(area_height as nat)),
    {
        let rows = self.visible_rows(area_height);
        self.cached_visible_rows = rows;
    }

    /// Scrolls the view so that the entry under the cursor is on screen,
    /// with `visible_rows` rows.
    pub fn update_scroll(&mut self, visible_rows: usize)
        requires
            visible_rows >= 1,
        ensures
            final(self)@ == with_cursor(
                old(self)@,
                old(self)@.selected,
                scroll_for(old(self)@.selected, old(self)@.scroll_offset, visible_rows as nat),
            ),
    {
        if self.selected >= self.scroll_offset && self.selected - self.scroll_offset >= visible_rows {
            self.scroll_offset = self.selected - (visible_rows - 1);
        } else if self.selected < self.scroll_offset {
            self.scroll_offset = self.selected;
        }
    }

    /// The path shown in the title: the current path, or `/ (root)`.
    pub fn title_text(&self) -> (r: String)
        ensures
            r@ == "SD Card - "@ + if self@.current_path.len() == 0 {
                "/ (root)"@
            } else {
                self@.current_path
            },
    {
        let mut t = String::from_str("SD Card - ");
        if self.current_path.as_str().is_empty() {
            t.append("/ (root)");
        } else {
            t.append(self.current_path.as_str());
        }
        t
    }

    /// The help line: back leaves the browser at the root, else goes up.
    pub fn hint_text(&self) -> (r: &'static str)
        ensures
            r@ == if self@.current_path.len() == 0 {
                "Rotate: Navigate | Confirm: Open | Back: Exit"@
            } else {
                "Rotate: Navigate | Confirm: Open | Back: Up"@
            },
    {
        if self.current_path.as_str().is_empty() {
            "Rotate: Navigate | Confirm: Open | Back: Exit"
        } else {
            "Rotate: Navigate | Confirm: Open | Back: Up"
        }
    }

    /// The error line, when the last listing failed: `"Error: <text>"`.
    pub fn error_text(&self) -> (r: Option<String>)
        ensures
            match self@.error_msg {
                Some(m) => r matches Some(t) && t@ == "Error: "@ + m,
                None => r is None,
            },
    {
        match &self.error_msg {
            Some(m) => {
                let mut t = String::from_str("Error: ");
                t.append(m.as_str());
                Some(t)
            },
            None => None,
        }
    }

    /// The rows of the listing shown with `visible_rows` rows in a list
    /// `list_width` cells wide (two of them are its border), from the first
    /// row shown on.
    pub fn list_rows(&self, visible_rows: usize, list_width: u16) -> (r: Vec<ListRow>)
        requires
            sd_wf(self@),
        ensures
            shows_rows(self@, visible_rows as nat, list_width as nat, r@),
    {
        let n = self.entries.len();
        let start = if n == 0 {
            0
        } else {
            self.scroll_offset
        };
        let end = if n - start > visible_rows {
            start + visible_rows
        } else {
            n
        };
        let inner = list_width.saturating_sub(2) as usize;
        let mut rows: Vec<ListRow> = Vec::new();
        let mut k = start;
        while k < end
            invariant
                start <= k <= end <= n,
                n == self@.entries.len(),
                n == 0 ==> start == 0 && end == 0,
                n > 0 ==> start == self@.scroll_offset,
                end == window_end(self@, visible_rows as nat) || n == 0,
                inner == if list_width >= 2 {
                    (list_width - 2) as nat
                } else {
                    0nat
                },
                rows@.len() == k - start,
                forall|i: int|
                    0 <= i < rows@.len() ==> {
                        let j = start + i;
                        &&& (#[trigger] rows@[i]).label@ == row_label(self@.entries[j], inner as nat)
                        &&& rows@[i].style == row_style(self@, j as nat)
                    },
            decreases end - k,
        {
            let e = &self.entries[k];
            let label = entry_label(e, inner);
            let style = if k == self.selected {
                RowStyle::Selected
            } else if e.is_dir {
                RowStyle::Directory
            } else {
                RowStyle::File
            };
            rows.push(ListRow { label, style });
            k = k + 1;
        }
        rows
    }

    /// Index of the entry under the cursor.
    pub fn selected(&self) -> (r: usize)
        ensures
            r == self@.selected,
    {
        self.selected
    }

    /// Index of the first entry on screen.
    pub fn scroll_offset(&self) -> (r: usize)
        ensures
            r == self@.scroll_offset,
    {
        self.scroll_offset
    }

    /// Path of the directory shown (`""` is the root).
    pub fn current_path(&self) -> (r: &str)
        ensures
            r@ == self@.current_path,
    {
        self.current_path.as_str()
    }

    /// Number of entries listed.
    pub fn entry_count(&self) -> (r: usize)
        ensures
            r == self@.entries.len(),
    {
        self.entries.len()
    }

    /// What the body shows with `visible_rows` rows in a list `list_width`
    /// cells wide: the error of the last listing if it failed, else the
    /// empty-directory text if nothing is listed, else the rows shown.
    pub fn body(&self, visible_rows: usize, list_width: u16) -> (r: BrowserBody)
        requires
            sd_wf(self@),
        ensures
            match self@.error_msg {
                Some(m) => r matches BrowserBody::Error(t) && t@ == "Error: "@ + m,
                None => if self@.entries.len() == 0 {
                    r matches BrowserBody::Empty(t) && t@ == "(Empty directory)"@
                } else {
                    r matches BrowserBody::Rows(rows) && shows_rows(
                        self@,
                        visible_rows as nat,
                        list_width as nat,
                        rows@,
                    )
                },
            },
    {
        match self.error_text() {
            Some(t) => BrowserBody::Error(t),
            None => if self.entries.len() == 0 {
                BrowserBody::Empty("(Empty directory)")
            } else {
                BrowserBody::Rows(self.list_rows(visible_rows, list_width))
            },
        }
    }

    /// Whether the listing is empty.
    pub fn is_empty(&self) -> (r: bool)
        ensures
            r == (self@.entries.len() == 0),
    {
        self.entries.len() == 0
    }
}

impl UiNode for SdBrowserNode {
    open spec fn wf(&self) -> bool {
        sd_wf(self@)
    }

    fn label(&self) -> (r: &'static str)
        ensures
            r@ == "SD Card"@,
    {
        "SD Card"
    }

    fn on_enter<F: FileSystem>(&mut self, fs: &mut Option<F>) -> (r: Vec<Command>)
        ensures
            refreshed(old(self)@, final(self)@, *old(fs)),
            (*final(fs) is Some) == (*old(fs) is Some),
            r@ == Seq::<Command>::empty(),
    {
        self.refresh(fs);
        Vec::new()
    }

    fn handle_event<F: FileSystem>(&mut self, event: EncoderEvent, fs: &mut Option<F>) -> (r: (
        NodeResult,
        Vec<Command>,
    ))
        ensures
            sd_step(old(self)@, event, *old(fs), final(self)@, r.0@),
            r.1@ == Seq::<Command>::empty(),
            (*final(fs) is Some) == (*old(fs) is Some),
    {
        match event {
            EncoderEvent::Clockwise => {
                if self.entries.len() > 0 && self.selected < self.entries.len() - 1 {
                    self.selected = self.selected + 1;
                }
                let rows = self.cached_visible_rows;
                self.update_scroll(rows);
            },
            EncoderEvent::CounterClockwise => {
                if self.selected > 0 {
                    self.selected = self.selected - 1;
                }
                let rows = self.cached_visible_rows;
                self.update_scroll(rows);
            },
            EncoderEvent::ConfirmReleased => {
                if self.selected < self.entries.len() && self.entries[self.selected].is_dir {
                    let short = self.entries[self.selected].short_name.clone();
                    let name = self.entries[self.selected].name.clone();
                    let ghost old_stack = self.path_stack@;
                    self.current_path = join_path(self.current_path.as_str(), short.as_str());
                    self.path_stack.push(name);
                    proof {
                        assert(self.path_stack@.map_values(|s: String| s@) =~= old_stack.map_values(
                            |s: String| s@,
                        ).push(name@));
                    }
                    self.refresh(fs);
                }
            },
            EncoderEvent::BackPressed => {
                if self.current_path.as_str().is_empty() {
                    return (NodeResult::Pop, Vec::new());
                }
                let (dir, _file) = split_path(self.current_path.as_str());
                let ghost old_stack = self.path_stack@;
                self.current_path = dir;
                let _ = self.path_stack.pop();
                proof {
                    if old_stack.len() > 0 {
                        assert(self.path_stack@.map_values(|s: String| s@) =~= old_stack.map_values(
                            |s: String| s@,
                        ).drop_last());
                    }
                }
                self.refresh(fs);
            },
            _ => {},
        }
        (NodeResult::Stay, Vec::new())
    }
}

/// Law: opening a directory and going back up returns to the directory and
/// the path of names it started from (its short name holds no `'/'`, and it
/// is not an empty name at the root, which would leave the path unchanged),
/// whatever the listings were.
pub proof fn law_enter_then_back<F: FileSystem>(
    v0: SdBrowserView,
    fs0: Option<F>,
    v1: SdBrowserView,
    r1: ResultView,
    fs1: Option<F>,
    v2: SdBrowserView,
    r2: ResultView,
)
    requires
        sd_wf(v0),
        on_directory(v0),
        forall|k: int|
            0 <= k < v0.entries[v0.selected as int].short_name@.len()
                ==> v0.entries[v0.selected as int].short_name@[k] != '/',
        v0.current_path.len() > 0 || v0.entries[v0.selected as int].short_name@.len() > 0,
        sd_step(v0, EncoderEvent::ConfirmReleased, fs0, v1, r1),
        sd_step(v1, EncoderEvent::BackPressed, fs1, v2, r2),
    ensures
        r1 == ResultView::Stay,
        r2 == ResultView::Stay,
        v1.current_path == join_path_spec(
            v0.current_path,
            v0.entries[v0.selected as int].short_name@,
        ),
        v2.current_path == v0.current_path,
        v2.path_stack == v0.path_stack,
{
    let e = v0.entries[v0.selected as int];
    assert(v1.current_path == join_path_spec(v0.current_path, e.short_name@));
    assert(v1.current_path.len() > 0) by {
        if v0.current_path.len() > 0 {
            assert(v1.current_path.len() >= v0.current_path.len());
        }
    }
    law_split_join(v0.current_path, e.short_name@);
    assert(v1.path_stack.drop_last() =~= v0.path_stack);
}

/// Law: only back's press moves the browser up or closes it, and only
/// confirm's release opens a directory: a confirm press or a back release
/// leaves the browser as it was, and stays.
pub proof fn law_browser_ignores_press_and_release<F: FileSystem>(
    v: SdBrowserView,
    event: EncoderEvent,
    fs: Option<F>,
    new: SdBrowserView,
    result: ResultView,
)
    requires
        event == EncoderEvent::ConfirmPressed || event == EncoderEvent::BackReleased,
        sd_step(v, event, fs, new, result),
    ensures
        result == ResultView::Stay,
        new == v,
{
}

/// Law: back's press closes the browser at the root directory, unchanged;
/// elsewhere it stays open and shows the parent directory (the path up to
/// its last `'/'`, or the root), one name fewer on the path of names.
pub proof fn law_browser_back<F: FileSystem>(
    v: SdBrowserView,
    fs: Option<F>,
    new: SdBrowserView,
    result: ResultView,
)
    requires
        sd_step(v, EncoderEvent::BackPressed, fs, new, result),
    ensures
        v.current_path.len() == 0 ==> result == ResultView::Pop && new == v,
        v.current_path.len() > 0 ==> {
            &&& result == ResultView::Stay
            &&& new.current_path == split_path_spec(v.current_path).0
            &&& new.current_path.len() < v.current_path.len()
            &&& (v.path_stack.len() > 0 ==> new.path_stack == v.path_stack.drop_last())
        },
{
    if v.current_path.len() > 0 {
        crate::sd_card::lemma_last_slash_bounds(v.current_path);
    }
}

} // verus!
