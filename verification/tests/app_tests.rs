use std::collections::BTreeMap;

use tembed_ui::app::sd_browser::{BrowserBody, RowStyle, SdBrowserNode};
use tembed_ui::app::ui_node::{brightness_label, popup_area, select_down, select_up};
use tembed_ui::app::{App, Command, NavigationStack, Node, NodeResult, UiNode};
use tembed_ui::app::ble::{BleKeyboardNode, BleMenu};
use tembed_ui::app::root_menu::RootMenu;
use tembed_ui::app::settings::{BrightnessNode, SettingsMenu};
use tembed_ui::ble_hid::{BleControlEvent, BleKeyEvent};
use tembed_ui::input::EncoderEvent;
use tembed_ui::sd_card::{
    ByteText, DirEntryInfo, FileSystem, ListingModel, PathText, ReadModel, SdError,
};

use EncoderEvent::{BackPressed, Clockwise, ConfirmReleased, CounterClockwise};

/// A file system held in memory.
struct MemFs {
    dirs: BTreeMap<String, Vec<DirEntryInfo>>,
}

impl FileSystem for MemFs {
    fn dir_listing(&self, _path: PathText) -> ListingModel {
        unreachable!("the library's proofs read this; it is never called")
    }

    fn file_contents(&self, _path: PathText) -> ReadModel {
        unreachable!("the library's proofs read this; it is never called")
    }

    fn write_outcome(&self, _path: PathText, _data: ByteText) -> Result<(), SdError> {
        unreachable!("the library's proofs read this; it is never called")
    }

    fn has_file(&self, _path: PathText) -> bool {
        unreachable!("the library's proofs read this; it is never called")
    }

    fn list_dir(&mut self, path: &str) -> Result<Vec<DirEntryInfo>, SdError> {
        self.dirs.get(path).cloned().ok_or(SdError::NotFound)
    }

    fn read_file(&mut self, _path: &str) -> Result<Vec<u8>, SdError> {
        Err(SdError::NotFound)
    }

    fn write_file(&mut self, _path: &str, _data: &[u8]) -> Result<(), SdError> {
        Err(SdError::WriteError)
    }

    fn file_exists(&mut self, _path: &str) -> bool {
        false
    }
}

fn entry(name: &str, short: &str, is_dir: bool, size: u32) -> DirEntryInfo {
    DirEntryInfo { name: name.to_string(), short_name: short.to_string(), is_dir, size }
}

fn card() -> MemFs {
    let mut dirs = BTreeMap::new();
    dirs.insert(
        String::new(),
        vec![
            entry("readme.txt", "README.TXT", false, 1536),
            entry("Music", "MUSIC", true, 0),
            entry("Documents", "DOCUME~1", true, 0),
        ],
    );
    dirs.insert("DOCUME~1".to_string(), vec![entry("notes.md", "NOTES.MD", false, 12)]);
    MemFs { dirs }
}

fn label<F: FileSystem>(app: &App<F>) -> &'static str {
    app.current().label()
}

fn browser<F: FileSystem>(app: &App<F>) -> &SdBrowserNode {
    match app.current() {
        Node::SdBrowser(b) => b,
        other => panic!("not the browser: {:?}", other),
    }
}

#[test]
fn app_starts_on_the_main_menu() {
    let app: App<MemFs> = App::new();
    assert_eq!(app.depth(), 1);
    assert_eq!(label(&app), "Main Menu");
    match app.current() {
        Node::Root(m) => assert_eq!(m.selected(), 0),
        other => panic!("{:?}", other),
    }
    let d: App<MemFs> = App::default();
    assert_eq!(d.depth(), 1);
}

#[test]
fn main_menu_selection_stays_in_range() {
    let mut app: App<MemFs> = App::new();
    for _ in 0..5 {
        assert!(app.handle_event(Clockwise).is_empty());
    }
    match app.current() {
        Node::Root(m) => assert_eq!(m.selected(), 2),
        other => panic!("{:?}", other),
    }
    for _ in 0..5 {
        app.handle_event(CounterClockwise);
    }
    match app.current() {
        Node::Root(m) => assert_eq!(m.selected(), 0),
        other => panic!("{:?}", other),
    }
    assert_eq!(RootMenu::items(), vec!["BLE", "Settings", "SD Card"]);
}

#[test]
fn back_on_the_main_menu_does_nothing() {
    let mut app: App<MemFs> = App::new();
    assert!(app.handle_event(BackPressed).is_empty());
    assert_eq!(app.depth(), 1);
    assert_eq!(label(&app), "Main Menu");
}

#[test]
fn brightness_screen_sets_the_backlight_within_range() {
    let mut app: App<MemFs> = App::new();
    app.handle_event(Clockwise);
    assert!(app.handle_event(ConfirmReleased).is_empty());
    assert_eq!(label(&app), "Settings");
    assert_eq!(app.depth(), 2);
    assert!(app.handle_event(ConfirmReleased).is_empty());
    assert_eq!(label(&app), "Brightness");
    assert_eq!(app.depth(), 3);
    assert_eq!(app.handle_event(Clockwise), vec![Command::Backlight(100)]);
    assert_eq!(app.handle_event(CounterClockwise), vec![Command::Backlight(99)]);
    assert_eq!(app.handle_event(CounterClockwise), vec![Command::Backlight(98)]);
    for _ in 0..200 {
        app.handle_event(CounterClockwise);
    }
    assert_eq!(app.handle_event(CounterClockwise), vec![Command::Backlight(1)]);
    assert_eq!(app.handle_event(Clockwise), vec![Command::Backlight(2)]);
    match app.current() {
        Node::Brightness(b) => assert_eq!(b.brightness(), 2),
        other => panic!("{:?}", other),
    }
    assert!(app.handle_event(ConfirmReleased).is_empty());
    assert_eq!(label(&app), "Settings");
    assert!(app.handle_event(BackPressed).is_empty());
    assert_eq!(label(&app), "Main Menu");
    assert_eq!(app.depth(), 1);
}

#[test]
fn back_leaves_the_brightness_screen() {
    let mut app: App<MemFs> = App::new();
    app.handle_event(Clockwise);
    app.handle_event(ConfirmReleased);
    app.handle_event(ConfirmReleased);
    assert!(app.handle_event(BackPressed).is_empty());
    assert_eq!(label(&app), "Settings");
}

#[test]
fn keyboard_screen_starts_types_and_stops() {
    let mut app: App<MemFs> = App::new();
    assert!(app.handle_event(ConfirmReleased).is_empty());
    assert_eq!(label(&app), "BLE");
    assert_eq!(
        app.handle_event(ConfirmReleased),
        vec![Command::BleControl(BleControlEvent::Start)]
    );
    assert_eq!(label(&app), "BLE Keyboard");
    assert_eq!(app.depth(), 3);
    assert_eq!(app.handle_event(Clockwise), vec![Command::BleKey(BleKeyEvent::Down)]);
    assert_eq!(app.handle_event(CounterClockwise), vec![Command::BleKey(BleKeyEvent::Up)]);
    assert!(app.handle_event(ConfirmReleased).is_empty());
    assert_eq!(app.depth(), 3);
    assert_eq!(app.handle_event(BackPressed), vec![Command::BleControl(BleControlEvent::Stop)]);
    assert_eq!(label(&app), "BLE");
    assert_eq!(app.depth(), 2);
}

#[test]
fn spam_screen_only_leaves_on_back() {
    let mut app: App<MemFs> = App::new();
    app.handle_event(ConfirmReleased);
    app.handle_event(Clockwise);
    assert!(app.handle_event(ConfirmReleased).is_empty());
    assert_eq!(label(&app), "BLE Spam");
    assert!(app.handle_event(Clockwise).is_empty());
    assert!(app.handle_event(ConfirmReleased).is_empty());
    assert_eq!(label(&app), "BLE Spam");
    assert!(app.handle_event(BackPressed).is_empty());
    assert_eq!(label(&app), "BLE");
    assert_eq!(BleMenu::items(), vec!["BLE Keyboard", "BLE Spam"]);
    assert_eq!(SettingsMenu::items(), vec!["Brightness"]);
}

#[test]
fn browser_without_card_shows_the_error() {
    let mut app: App<MemFs> = App::new();
    app.handle_event(Clockwise);
    app.handle_event(Clockwise);
    assert!(app.handle_event(ConfirmReleased).is_empty());
    assert_eq!(label(&app), "SD Card");
    let b = browser(&app);
    assert_eq!(b.error_text().unwrap(), "Error: NotInitialized");
    assert!(b.is_empty());
    assert_eq!(b.title_text(), "SD Card - / (root)");
    assert_eq!(b.hint_text(), "Rotate: Navigate | Confirm: Open | Back: Exit");
}

#[test]
fn browser_lists_enters_and_goes_back() {
    let mut app: App<MemFs> = App::new();
    app.init_fs(card());
    app.handle_event(Clockwise);
    app.handle_event(Clockwise);
    app.handle_event(ConfirmReleased);
    let b = browser(&app);
    assert!(b.error_text().is_none());
    assert_eq!(b.entry_count(), 3);
    let rows = b.list_rows(5, 30);
    let labels: Vec<String> = rows.iter().map(|r| r.label.clone()).collect();
    assert_eq!(
        labels,
        vec![
            format!("[{:<25}/]", "Documents"),
            format!("[{:<25}/]", "Music"),
            format!("{:<18} {}", "readme.txt", "1.5K"),
        ]
    );
    assert_eq!(rows[0].style, RowStyle::Selected);
    assert_eq!(rows[1].style, RowStyle::Directory);
    assert_eq!(rows[2].style, RowStyle::File);

    app.handle_event(ConfirmReleased);
    let b = browser(&app);
    assert_eq!(b.current_path(), "DOCUME~1");
    assert_eq!(b.title_text(), "SD Card - DOCUME~1");
    assert_eq!(b.hint_text(), "Rotate: Navigate | Confirm: Open | Back: Up");
    assert_eq!(b.entry_count(), 1);
    // confirm on a file changes nothing
    app.handle_event(ConfirmReleased);
    assert_eq!(browser(&app).current_path(), "DOCUME~1");

    assert!(app.handle_event(BackPressed).is_empty());
    let b = browser(&app);
    assert_eq!(b.current_path(), "");
    assert_eq!(b.entry_count(), 3);
    assert_eq!(b.selected(), 0);
    assert!(app.handle_event(BackPressed).is_empty());
    assert_eq!(label(&app), "Main Menu");
}

#[test]
fn browser_reports_a_directory_that_cannot_be_listed() {
    let mut app: App<MemFs> = App::new();
    app.init_fs(card());
    app.handle_event(Clockwise);
    app.handle_event(Clockwise);
    app.handle_event(ConfirmReleased);
    app.handle_event(Clockwise);
    // MUSIC is not in the card's table
    app.handle_event(ConfirmReleased);
    let b = browser(&app);
    assert_eq!(b.current_path(), "MUSIC");
    assert_eq!(b.error_text().unwrap(), "Error: NotFound");
    assert!(b.is_empty());
}

#[test]
fn browser_scrolls_to_keep_the_cursor_visible() {
    let mut dirs = BTreeMap::new();
    let many: Vec<DirEntryInfo> =
        (0..8).map(|i| entry(&format!("f{}", i), &format!("F{}", i), false, i)).collect();
    dirs.insert(String::new(), many);
    let mut app: App<MemFs> = App::new();
    app.init_fs(MemFs { dirs });
    app.handle_event(Clockwise);
    app.handle_event(Clockwise);
    app.handle_event(ConfirmReleased);
    // a screen 7 rows high leaves 3 rows for entries
    app.note_screen_height(7);
    for _ in 0..4 {
        app.handle_event(Clockwise);
    }
    let b = browser(&app);
    assert_eq!(b.selected(), 4);
    assert_eq!(b.scroll_offset(), 2);
    let rows = b.list_rows(b.visible_rows(7), 20);
    assert_eq!(rows.len(), 3);
    assert_eq!(rows[2].style, RowStyle::Selected);
    for _ in 0..10 {
        app.handle_event(Clockwise);
    }
    assert_eq!(browser(&app).selected(), 7);
    assert_eq!(browser(&app).scroll_offset(), 5);
    for _ in 0..7 {
        app.handle_event(CounterClockwise);
    }
    assert_eq!(browser(&app).selected(), 0);
    assert_eq!(browser(&app).scroll_offset(), 0);
}

#[test]
fn visible_rows_leave_room_for_title_and_hint() {
    let b = SdBrowserNode::new();
    assert_eq!(b.visible_rows(0), 1);
    assert_eq!(b.visible_rows(5), 1);
    assert_eq!(b.visible_rows(6), 2);
    assert_eq!(b.visible_rows(170), 166);
}

#[test]
fn update_scroll_follows_the_cursor() {
    let mut b = SdBrowserNode::new();
    b.apply_listing(Ok((0..10).map(|i| entry(&format!("e{}", i), "E", false, 0)).collect()));
    let mut fs: Option<MemFs> = None;
    for _ in 0..6 {
        b.handle_event(Clockwise, &mut fs);
    }
    // five rows by default: the cursor at 6 shows rows 2 to 6
    assert_eq!(b.selected(), 6);
    assert_eq!(b.scroll_offset(), 2);
    // with two rows the cursor sits on the last one
    b.update_scroll(2);
    assert_eq!(b.scroll_offset(), 5);
    b.update_scroll(1);
    assert_eq!(b.scroll_offset(), 6);
    // with more rows than needed the view does not move
    b.update_scroll(10);
    assert_eq!(b.scroll_offset(), 6);
}

#[test]
fn listing_errors_keep_the_scroll_position() {
    let mut b = SdBrowserNode::new();
    b.apply_listing(Ok((0..10).map(|i| entry(&format!("e{}", i), "E", false, 0)).collect()));
    let mut fs: Option<MemFs> = None;
    for _ in 0..8 {
        b.handle_event(Clockwise, &mut fs);
    }
    assert_eq!(b.scroll_offset(), 4);
    b.apply_listing(Err(SdError::ReadError));
    assert_eq!(b.selected(), 0);
    assert_eq!(b.scroll_offset(), 4);
    assert_eq!(b.error_text().unwrap(), "Error: ReadError");
    b.apply_listing(Ok(vec![entry("x", "X", true, 0)]));
    assert_eq!(b.scroll_offset(), 0);
    assert!(b.error_text().is_none());
}

#[test]
fn navigation_stack_push_then_pop_restores_it() {
    let mut fs: Option<MemFs> = None;
    let mut nav = NavigationStack::new(Node::Root(RootMenu::new()));
    assert_eq!(nav.depth(), 1);
    let enter = nav.push(Node::BleKeyboard(BleKeyboardNode::new()), &mut fs);
    assert_eq!(enter, vec![Command::BleControl(BleControlEvent::Start)]);
    assert_eq!(nav.depth(), 2);
    assert_eq!(nav.current().label(), "BLE Keyboard");
    let exit = nav.pop();
    assert_eq!(exit, vec![Command::BleControl(BleControlEvent::Stop)]);
    assert_eq!(nav.depth(), 1);
    assert_eq!(nav.current().label(), "Main Menu");
    // the last screen is never popped
    assert!(nav.pop().is_empty());
    assert_eq!(nav.depth(), 1);
    let (r, cmds) = nav.current_mut().handle_event(ConfirmReleased, &mut fs);
    assert!(cmds.is_empty());
    assert!(matches!(r, NodeResult::Push(Node::Ble(_))));
}

#[test]
fn brightness_node_caps_at_the_ends() {
    let mut fs: Option<MemFs> = None;
    let mut b = BrightnessNode::new();
    assert_eq!(b.brightness(), 100);
    let (r, c) = b.handle_event(Clockwise, &mut fs);
    assert!(matches!(r, NodeResult::Stay));
    assert_eq!(c, vec![Command::Backlight(100)]);
    let (r, c) = b.handle_event(BackPressed, &mut fs);
    assert!(matches!(r, NodeResult::Pop));
    assert!(c.is_empty());
}

#[test]
fn tick_asks_for_nothing() {
    let mut app: App<MemFs> = App::new();
    assert!(app.tick().is_empty());
    assert_eq!(app.depth(), 1);
}

#[test]
fn menu_selection_helpers() {
    assert_eq!(select_down(0, 3), 1);
    assert_eq!(select_down(2, 3), 2);
    assert_eq!(select_up(0), 0);
    assert_eq!(select_up(2), 1);
}

#[test]
fn brightness_popup_geometry_and_label() {
    assert_eq!(popup_area(100, 20), (25, 8, 50, 3));
    assert_eq!(popup_area(53, 28), (2, 12, 49, 3));
    assert_eq!(popup_area(2, 2), (1, 0, 0, 3));
    assert_eq!(brightness_label(57), "Brightness: 57/100");
    assert_eq!(brightness_label(100), "Brightness: 100/100");
}

#[test]
fn browser_body_shows_error_then_empty_then_rows() {
    let mut b = SdBrowserNode::new();
    assert!(matches!(b.body(5, 20), BrowserBody::Empty("(Empty directory)")));
    b.apply_listing(Err(SdError::NoDirectory));
    match b.body(5, 20) {
        BrowserBody::Error(t) => assert_eq!(t, "Error: NoDirectory"),
        other => panic!("{:?}", other),
    }
    b.apply_listing(Ok(vec![entry("a", "A", false, 10), entry("d", "D", true, 0)]));
    match b.body(1, 14) {
        BrowserBody::Rows(rows) => {
            assert_eq!(rows.len(), 1);
            assert_eq!(rows[0].label, format!("[{:<9}/]", "d"));
            assert_eq!(rows[0].style, RowStyle::Selected);
        }
        other => panic!("{:?}", other),
    }
}

#[test]
fn browser_lists_the_directory_it_entered() {
    let mut app: App<MemFs> = App::new();
    app.init_fs(card());
    app.handle_event(Clockwise);
    app.handle_event(Clockwise);
    app.handle_event(ConfirmReleased);
    app.handle_event(ConfirmReleased);
    match browser(&app).body(5, 30) {
        BrowserBody::Rows(rows) => {
            assert_eq!(rows.len(), 1);
            assert_eq!(rows[0].label, format!("{:<18} {}", "notes.md", "12B"));
        }
        other => panic!("{:?}", other),
    }
}
