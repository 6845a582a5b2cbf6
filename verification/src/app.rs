//! The interface's state machine: the screens, the navigation stack, and the
//! hardware commands that the screens ask for.

pub mod ui_node;
pub mod root_menu;
pub mod ble;
pub mod settings;
pub mod sd_browser;

pub use ui_node::UiNode;

use vstd::prelude::*;
use crate::ble_hid::{BleControlEvent, BleKeyEvent};
use crate::input::EncoderEvent;
use crate::sd_card::FileSystem;
use root_menu::{RootMenu, root_next, root_result};
use ble::{BleMenu, BleKeyboardNode, BleSpamNode, ble_next, ble_result, back_only_result, keyboard_commands};
use settings::{
    SettingsMenu, BrightnessNode, settings_next, settings_result, brightness_next, brightness_result,
    brightness_commands,
};
use sd_browser::{
    SdBrowserNode, SdBrowserView, sd_step, sd_wf, refreshed, listing_applied, with_rows,
    visible_rows_spec,
};
use crate::sd_card::fs_listing;

verus! {

// =============================================================================
// Hardware commands
// =============================================================================

/// A hardware operation that the interface asks the firmware to perform.
#[derive(Debug, Clone, Copy, PartialEq, Eq, Structural)]
pub enum Command {
    /// Set the backlight brightness, in percent.
    Backlight(u8),
    /// Start or stop the BLE keyboard.
    BleControl(BleControlEvent),
    /// Type a key on the BLE keyboard.
    BleKey(BleKeyEvent),
}

// =============================================================================
// Screens
// =============================================================================

/// A screen as mathematical values: which screen it is, and its state.
pub enum NodeView {
    /// The main menu, with its selected entry.
    Root(nat),
    /// The BLE menu, with its selected entry.
    Ble(nat),
    /// The BLE keyboard screen.
    BleKeyboard,
    /// The BLE spam screen.
    BleSpam,
    /// The settings menu, with its selected entry.
    Settings(nat),
    /// The brightness screen, with the brightness shown.
    Brightness(nat),
    /// The file browser.
    SdBrowser(SdBrowserView),
}

/// Where an event navigates, as mathematical values.
pub enum ResultView {
    /// Stay on the current screen.
    Stay,
    /// Open a new screen on top of the current one.
    Push(NodeView),
    /// Close the current screen.
    Pop,
}

/// One of the interface's screens.
#[derive(Debug)]
pub enum Node {
    /// The main menu.
    Root(RootMenu),
    /// The BLE menu.
    Ble(BleMenu),
    /// The BLE keyboard screen.
    BleKeyboard(BleKeyboardNode),
    /// The BLE spam screen.
    BleSpam(BleSpamNode),
    /// The settings menu.
    Settings(SettingsMenu),
    /// The brightness screen.
    Brightness(BrightnessNode),
    /// The file browser.
    SdBrowser(SdBrowserNode),
}

impl View for Node {
    type V = NodeView;

    open spec fn view(&self) -> NodeView {
        match self {
            Node::Root(m) => NodeView::Root(m@),
            Node::Ble(m) => NodeView::Ble(m@),
            Node::BleKeyboard(_) => NodeView::BleKeyboard,
            Node::BleSpam(_) => NodeView::BleSpam,
            Node::Settings(m) => NodeView::Settings(m@),
            Node::Brightness(b) => NodeView::Brightness(b@),
            Node::SdBrowser(s) => NodeView::SdBrowser(s@),
        }
    }
}

/// The result of a screen's event handling: where to navigate.
#[derive(Debug)]
pub enum NodeResult {
    /// Stay on the current screen.
    Stay,
    /// Open a new screen on top of the current one.
    Push(Node),
    /// Close the current screen (return to its parent).
    Pop,
}

impl View for NodeResult {
    type V = ResultView;

    open spec fn view(&self) -> ResultView {
        match self {
            NodeResult::Stay => ResultView::Stay,
            NodeResult::Push(n) => ResultView::Push(n@),
            NodeResult::Pop => ResultView::Pop,
        }
    }
}

/// A screen's invariant: a menu's selection is one of its entries, the
/// brightness is between 1 and 100, the browser keeps its own invariant.
pub open spec fn node_wf(v: NodeView) -> bool {
    match v {
        NodeView::Root(s) => s < 3,
        NodeView::Ble(s) => s < 2,
        NodeView::Settings(s) => s < 1,
        NodeView::Brightness(b) => 1 <= b <= 100,
        NodeView::SdBrowser(b) => sd_wf(b),
        _ => true,
    }
}

/// The menu tree: which screens each screen opens.
pub open spec fn is_child(parent: NodeView, child: NodeView) -> bool {
    match parent {
        NodeView::Root(_) => child is Ble || child is Settings || child is SdBrowser,
        NodeView::Ble(_) => child is BleKeyboard || child is BleSpam,
        NodeView::Settings(_) => child is Brightness,
        _ => false,
    }
}

/// The name of a screen.
pub open spec fn node_label(v: NodeView) -> Seq<char> {
    match v {
        NodeView::Root(_) => "Main Menu"@,
        NodeView::Ble(_) => "BLE"@,
        NodeView::BleKeyboard => "BLE Keyboard"@,
        NodeView::BleSpam => "BLE Spam"@,
        NodeView::Settings(_) => "Settings"@,
        NodeView::Brightness(_) => "Brightness"@,
        NodeView::SdBrowser(_) => "SD Card"@,
    }
}

/// The commands of entering a screen: the keyboard screen starts the BLE
/// keyboard.
pub open spec fn enter_commands(v: NodeView) -> Seq<Command> {
    match v {
        NodeView::BleKeyboard => seq![Command::BleControl(BleControlEvent::Start)],
        _ => Seq::empty(),
    }
}

/// The commands of leaving a screen: the keyboard screen stops the BLE
/// keyboard.
pub open spec fn exit_commands(v: NodeView) -> Seq<Command> {
    match v {
        NodeView::BleKeyboard => seq![Command::BleControl(BleControlEvent::Stop)],
        _ => Seq::empty(),
    }
}

/// `after` is screen `before` once entered: the browser lists its directory,
/// other screens do not change.
pub open spec fn entered<F: FileSystem>(before: NodeView, fs: Option<F>, after: NodeView) -> bool {
    match before {
        NodeView::SdBrowser(b) => after matches NodeView::SdBrowser(a) && refreshed(b, a, fs),
        _ => after == before,
    }
}

/// One input event on a screen: `new` is the screen after it, `result` where
/// it navigates, `cmds` the commands it asks for.
pub open spec fn node_step<F: FileSystem>(
    old: NodeView,
    event: EncoderEvent,
    fs: Option<F>,
    new: NodeView,
    result: ResultView,
    cmds: Seq<Command>,
) -> bool {
    match old {
        NodeView::Root(s) => new == NodeView::Root(root_next(s, event)) && result == root_result(
            s,
            event,
        ) && cmds == Seq::<Command>::empty(),
        NodeView::Ble(s) => new == NodeView::Ble(ble_next(s, event)) && result == ble_result(
            s,
            event,
        ) && cmds == Seq::<Command>::empty(),
        NodeView::BleKeyboard => new == old && result == back_only_result(event) && cmds
            == keyboard_commands(event),
        NodeView::BleSpam => new == old && result == back_only_result(event) && cmds == Seq::<
            Command,
        >::empty(),
        NodeView::Settings(s) => new == NodeView::Settings(settings_next(s, event)) && result
            == settings_result(s, event) && cmds == Seq::<Command>::empty(),
        NodeView::Brightness(b) => new == NodeView::Brightness(brightness_next(b, event)) && result
            == brightness_result(event) && cmds == brightness_commands(b, event),
        NodeView::SdBrowser(b) => new matches NodeView::SdBrowser(a) && sd_step(
            b,
            event,
            fs,
            a,
            result,
        ) && cmds == Seq::<Command>::empty(),
    }
}

impl UiNode for Node {
    open spec fn wf(&self) -> bool {
        node_wf(self@)
    }

    fn label(&self) -> (r: &'static str)
        ensures
            r@ == node_label(self@),
    {
        match self {
            Node::Root(m) => m.label(),
            Node::Ble(m) => m.label(),
            Node::BleKeyboard(m) => m.label(),
            Node::BleSpam(m) => m.label(),
            Node::Settings(m) => m.label(),
            Node::Brightness(m) => m.label(),
            Node::SdBrowser(m) => m.label(),
        }
    }

    fn on_enter<F: FileSystem>(&mut self, fs: &mut Option<F>) -> (r: Vec<Command>)
        ensures
            entered(old(self)@, *old(fs), final(self)@),
            r@ == enter_commands(old(self)@),
            (*final(fs) is Some) == (*old(fs) is Some),
    {
        match self {
            Node::BleKeyboard(m) => m.on_enter(fs),
            Node::SdBrowser(m) => m.on_enter(fs),
            _ => Vec::new(),
        }
    }

    fn on_exit(&mut self) -> (r: Vec<Command>)
        ensures
            final(self)@ == old(self)@,
            r@ == exit_commands(old(self)@),
    {
        match self {
            Node::BleKeyboard(m) => m.on_exit(),
            _ => Vec::new(),
        }
    }

    fn handle_event<F: FileSystem>(&mut self, event: EncoderEvent, fs: &mut Option<F>) -> (r: (
        NodeResult,
        Vec<Command>,
    ))
        ensures
            node_step(old(self)@, event, *old(fs), final(self)@, r.0@, r.1@),
            (*final(fs) is Some) == (*old(fs) is Some),
            !(old(self)@ is SdBrowser) ==> *final(fs) == *old(fs),
    {
        match self {
            Node::Root(m) => m.handle_event(event, fs),
            Node::Ble(m) => m.handle_event(event, fs),
            Node::BleKeyboard(m) => m.handle_event(event, fs),
            Node::BleSpam(m) => m.handle_event(event, fs),
            Node::Settings(m) => m.handle_event(event, fs),
            Node::Brightness(m) => m.handle_event(event, fs),
            Node::SdBrowser(m) => m.handle_event(event, fs),
        }
    }
}

// =============================================================================
// Navigation stack
// =============================================================================

/// A stack of screens: never empty, and every screen keeps its invariant.
pub open spec fn stack_wf(s: Seq<NodeView>) -> bool {
    &&& s.len() >= 1
    &&& forall|i: int| 0 <= i < s.len() ==> node_wf(#[trigger] s[i])
}

/// The stack of open screens: the top one is shown and gets the events;
/// entering a sub-screen pushes it, leaving pops it.
pub struct NavigationStack {
    stack: Vec<Node>,
}

impl View for NavigationStack {
    /// The screens, bottom first.
    type V = Seq<NodeView>;

    closed spec fn view(&self) -> Seq<NodeView> {
        self.stack@.map_values(|n: Node| n@)
    }
}

impl NavigationStack {
    /// A stack holding only `root`.
    pub fn new(root: Node) -> (r: Self)
        ensures
            r@ == seq![root@],
    {
        let mut stack: Vec<Node> = Vec::new();
        stack.push(root);
        let r = NavigationStack { stack };
        assert(r@ =~= seq![root@]);
        r
    }

    /// The screen on top.
    pub fn current(&self) -> (r: &Node)
        requires
            self@.len() > 0,
        ensures
            r@ == self@.last(),
    {
        let n = self.stack.len();
        &self.stack[n - 1]
    }

    /// The screen on top, to change it in place.
    pub fn current_mut(&mut self) -> (r: &mut Node)
        requires
            old(self)@.len() > 0,
        ensures
            (*r)@ == old(self)@.last(),
            final(self)@ == old(self)@.update(old(self)@.len() - 1, (*final(r))@),
    {
        let n = self.stack.len();
        &mut self.stack[n - 1]
    }

    /// Pushes `node` and enters it; returns the commands of entering it.
    pub fn push<F: FileSystem>(&mut self, node: Node, fs: &mut Option<F>) -> (r: Vec<Command>)
        requires
            node_wf(node@),
        ensures
            final(self)@.len() == old(self)@.len() + 1,
            final(self)@.drop_last() == old(self)@,
            entered(node@, *old(fs), final(self)@.last()),
            node_wf(final(self)@.last()),
            r@ == enter_commands(node@),
            (*final(fs) is Some) == (*old(fs) is Some),
    {
        let mut node = node;
        let cmds = node.on_enter(fs);
        self.stack.push(node);
        assert(self@.drop_last() =~= old(self)@);
        cmds
    }

    /// Pops the top screen and leaves it, unless it is the last one; returns
    /// the commands of leaving it.
    pub fn pop(&mut self) -> (r: Vec<Command>)
        requires
            old(self)@.len() > 1 ==> node_wf(old(self)@.last()),
        ensures
            old(self)@.len() > 1 ==> final(self)@ == old(self)@.drop_last() && r@ == exit_commands(
                old(self)@.last(),
            ),
            old(self)@.len() <= 1 ==> final(self)@ == old(self)@ && r@ == Seq::<Command>::empty(),
    {
        if self.stack.len() > 1 {
            let mut node = self.stack.pop().unwrap();
            assert(self@ =~= old(self)@.drop_last());
            node.on_exit()
        } else {
            Vec::new()
        }
    }

    /// How many screens are open.
    pub fn depth(&self) -> (r: usize)
        ensures
            r == self@.len(),
    {
        self.stack.len()
    }
}

// =============================================================================
// Application
// =============================================================================

/// Whether screen `i` of `s` is one that screen `i - 1` opens.
pub open spec fn opened_by_previous(s: Seq<NodeView>, i: int) -> bool {
    is_child(s[i - 1], s[i])
}

/// The application's invariant: the main menu at the bottom, each screen
/// above it one that the screen below opens, every screen keeping its own
/// invariant.
pub open spec fn app_wf(s: Seq<NodeView>) -> bool {
    &&& stack_wf(s)
    &&& s[0] is Root
    &&& forall|i: int| 1 <= i < s.len() ==> #[trigger] opened_by_previous(s, i)
}

/// The stack `new` and the commands `cmds` after the top screen of `old`
/// became `top` and asked for `result` and `ecmds`: a pushed screen is
/// entered on top, a popped one left (the last screen is never popped), and
/// the commands of entering or leaving follow the screen's own.
pub open spec fn after_step<F: FileSystem>(
    old: Seq<NodeView>,
    top: NodeView,
    result: ResultView,
    ecmds: Seq<Command>,
    fs: Option<F>,
    new: Seq<NodeView>,
    cmds: Seq<Command>,
) -> bool {
    let below = old.drop_last();
    match result {
        ResultView::Stay => new == below.push(top) && cmds == ecmds,
        ResultView::Push(n) => {
            &&& new.len() == old.len() + 1
            &&& new.drop_last() == below.push(top)
            &&& entered(n, fs, new.last())
            &&& cmds == ecmds + enter_commands(n)
        },
        ResultView::Pop => if old.len() > 1 {
            new == below && cmds == ecmds + exit_commands(top)
        } else {
            new == below.push(top) && cmds == ecmds
        },
    }
}

/// One input event on the application: the top screen handles it, then the
/// stack follows where it navigates.
pub open spec fn app_step<F: FileSystem>(
    old: Seq<NodeView>,
    event: EncoderEvent,
    fs: Option<F>,
    new: Seq<NodeView>,
    cmds: Seq<Command>,
) -> bool {
    exists|top: NodeView, result: ResultView, ecmds: Seq<Command>|
        #[trigger] node_step(old.last(), event, fs, top, result, ecmds) && after_step(
            old,
            top,
            result,
            ecmds,
            fs,
            new,
            cmds,
        )
}

/// The application: the navigation stack and the file system that the
/// screens read.
pub struct App<F: FileSystem> {
    nav: NavigationStack,
    fs: Option<F>,
}

impl<F: FileSystem> View for App<F> {
    /// The open screens, bottom first.
    type V = Seq<NodeView>;

    closed spec fn view(&self) -> Seq<NodeView> {
        self.nav@
    }
}

impl<F: FileSystem> Default for App<F> {
    /// The application on the main menu, with no file system installed.
    fn default() -> (r: Self)
        ensures
            r@ == seq![NodeView::Root(0)],
            !r.has_fs(),
    {
        Self::new()
    }
}

impl<F: FileSystem> App<F> {
    /// The installed file system, if any.
    pub closed spec fn file_system(&self) -> Option<F> {
        self.fs
    }

    /// Whether a file system is installed.
    pub open spec fn has_fs(&self) -> bool {
        self.file_system() is Some
    }

    /// The application on the main menu, with no file system installed.
    pub fn new() -> (r: Self)
        ensures
            r@ == seq![NodeView::Root(0)],
            r.file_system() is None,
            app_wf(r@),
    {
        let root = Node::Root(RootMenu::new());
        let nav = NavigationStack::new(root);
        let r = App { nav, fs: None };
        assert(r@[0] == NodeView::Root(0));
        r
    }

    /// Installs the file system that the browser lists.
    pub fn init_fs(&mut self, fs: F)
        ensures
            final(self)@ == old(self)@,
            final(self).file_system() == Some(fs),
    {
        crate::sd_card::init_fs(&mut self.fs, fs);
    }

    /// The screen on top, the one to draw.
    pub fn current(&self) -> (r: &Node)
        requires
            app_wf(self@),
        ensures
            r@ == self@.last(),
    {
        self.nav.current()
    }

    /// How many screens are open.
    pub fn depth(&self) -> (r: usize)
        ensures
            r == self@.len(),
    {
        self.nav.depth()
    }

    /// Handles one encoder event; returns the hardware commands to run, in
    /// order.
    pub fn handle_event(&mut self, event: EncoderEvent) -> (r: Vec<Command>)
        requires
            app_wf(old(self)@),
        ensures
            app_wf(final(self)@),
            app_step(old(self)@, event, old(self).file_system(), final(self)@, r@),
            final(self).has_fs() == old(self).has_fs(),
            final(self)@.len() + 1 >= old(self)@.len(),
            final(self)@.len() <= old(self)@.len() + 1,
            final(self)@.subrange(0, old(self)@.len() - 1) == old(self)@.subrange(
                0,
                old(self)@.len() - 1,
            ),
            r@.contains(Command::BleControl(BleControlEvent::Start)) <==> (final(self)@.len()
                == old(self)@.len() + 1 && final(self)@.last() is BleKeyboard),
            r@.contains(Command::BleControl(BleControlEvent::Stop)) <==> (final(self)@.len() + 1
                == old(self)@.len() && old(self)@.last() is BleKeyboard),
            forall|b: u8| #[trigger] r@.contains(Command::Backlight(b)) ==> 1 <= b <= 100,
            forall|k: BleKeyEvent|
                #[trigger] r@.contains(Command::BleKey(k)) ==> old(self)@.last() is BleKeyboard
                    && final(self)@ == old(self)@,
    {
        let ghost old_nav = self.nav@;
        let ghost fs0 = self.fs;
        let mut commands: Vec<Command> = Vec::new();
        let (result, mut event_cmds) = self.nav.current_mut().handle_event(event, &mut self.fs);
        let ghost mid = self.nav@;
        let ghost top = mid.last();
        let ghost res = result@;
        let ghost ecmds = event_cmds@;
        commands.append(&mut event_cmds);
        proof {
            lemma_step_shape(old_nav.last(), event, fs0, top, res, ecmds);
            assert(commands@ =~= ecmds);
            assert(mid =~= old_nav.drop_last().push(top));
        }
        match result {
            NodeResult::Stay => {
                assert(after_step(old_nav, top, res, ecmds, fs0, self.nav@, commands@));
            },
            NodeResult::Push(node) => {
                let mut c = self.nav.push(node, &mut self.fs);
                let ghost cv = c@;
                commands.append(&mut c);
                assert(commands@ =~= ecmds + cv);
                assert(self.nav@.drop_last() == mid);
                assert(after_step(old_nav, top, res, ecmds, fs0, self.nav@, commands@));
            },
            NodeResult::Pop => {
                let mut c = self.nav.pop();
                let ghost cv = c@;
                commands.append(&mut c);
                assert(commands@ =~= ecmds + cv);
                assert(mid.drop_last() =~= old_nav.drop_last());
                assert(after_step(old_nav, top, res, ecmds, fs0, self.nav@, commands@));
            },
        }
        proof {
            assert(after_step(old_nav, top, res, ecmds, fs0, self.nav@, commands@));
            lemma_after_step_wf(old_nav, top, res, ecmds, fs0, self.nav@, commands@);
            lemma_step_commands(old_nav, event, fs0, top, res, ecmds, self.nav@, commands@);
        }
        commands
    }

    /// Records the height of the screen about to be drawn: the browser, when
    /// it is on top, measures how many entries fit, and its cursor keeps to
    /// that from the next event on.
    pub fn note_screen_height(&mut self, area_height: u16)
        requires
            app_wf(old(self)@),
        ensures
            app_wf(final(self)@),
            final(self).has_fs() == old(self).has_fs(),
            final(self)@ == match old(self)@.last() {
                NodeView::SdBrowser(v) => old(self)@.update(
                    old(self)@.len() - 1,
                    NodeView::SdBrowser(with_rows(v, visible_rows_spec(area_height as nat))),
                ),
                _ => old(self)@,
            },
    {
        let ghost old_nav = self.nav@;
        match self.nav.current_mut() {
            Node::SdBrowser(b) => b.cache_visible_rows(area_height),
            _ => {},
        }
        proof {
            let new = self.nav@;
            if old_nav.last() is SdBrowser {
                assert(new.len() == old_nav.len());
                assert forall|i: int| 0 <= i < new.len() implies node_wf(#[trigger] new[i]) by {
                    assert(node_wf(old_nav[i]));
                }
                assert forall|i: int| 1 <= i < new.len() implies #[trigger] opened_by_previous(
                    new,
                    i,
                ) by {
                    assert(opened_by_previous(old_nav, i));
                }
            } else {
                assert(new =~= old_nav);
            }
        }
    }

    /// Periodic update, once per frame; no screen asks for anything yet.
    pub fn tick(&mut self) -> (r: Vec<Command>)
        ensures
            final(self)@ == old(self)@,
            final(self).has_fs() == old(self).has_fs(),
            r@ == Seq::<Command>::empty(),
    {
        Vec::new()
    }
}

/// A step keeps the screen's kind and invariant, and a screen only pushes
/// the screens it opens, in their initial state.
proof fn lemma_step_shape<F: FileSystem>(
    old: NodeView,
    event: EncoderEvent,
    fs: Option<F>,
    top: NodeView,
    result: ResultView,
    ecmds: Seq<Command>,
)
    requires
        node_wf(old),
        node_step(old, event, fs, top, result, ecmds),
    ensures
        node_wf(top),
        forall|p: NodeView| is_child(p, old) <==> is_child(p, top),
        result matches ResultView::Push(n) ==> is_child(top, n) && node_wf(n) && !(old is SdBrowser),
{
}

/// After a step, the stack still satisfies the application's invariant.
proof fn lemma_after_step_wf<F: FileSystem>(
    old: Seq<NodeView>,
    top: NodeView,
    result: ResultView,
    ecmds: Seq<Command>,
    fs: Option<F>,
    new: Seq<NodeView>,
    cmds: Seq<Command>,
)
    requires
        app_wf(old),
        node_wf(top),
        forall|p: NodeView| is_child(p, old.last()) <==> is_child(p, top),
        top is Root <==> old.last() is Root,
        result matches ResultView::Push(n) ==> is_child(top, n) && node_wf(n),
        after_step(old, top, result, ecmds, fs, new, cmds),
    ensures
        app_wf(new),
{
    let below = old.drop_last();
    let mid = below.push(top);
    assert(mid.len() == old.len());
    assert forall|i: int| 0 <= i < mid.len() implies node_wf(#[trigger] mid[i]) by {
        if i < below.len() {
            assert(mid[i] == old[i]);
        }
    }
    assert(mid[0] is Root) by {
        if old.len() > 1 {
            assert(mid[0] == old[0]);
        }
    }
    assert forall|i: int| 1 <= i < mid.len() implies #[trigger] opened_by_previous(mid, i) by {
        assert(opened_by_previous(old, i));
        assert(mid[i - 1] == old[i - 1]);
        if i < below.len() {
            assert(mid[i] == old[i]);
        }
    }
    assert(app_wf(mid));
    match result {
        ResultView::Stay => {},
        ResultView::Push(n) => {
            lemma_entered_wf(n, fs, new.last());
            assert(new =~= mid.push(new.last()));
            assert forall|i: int| 0 <= i < new.len() implies node_wf(#[trigger] new[i]) by {
                if i < mid.len() {
                    assert(new[i] == mid[i]);
                }
            }
            assert forall|i: int| 1 <= i < new.len() implies #[trigger] opened_by_previous(new, i) by {
                if i < mid.len() {
                    assert(opened_by_previous(mid, i));
                    assert(new[i] == mid[i] && new[i - 1] == mid[i - 1]);
                } else {
                    assert(new[i - 1] == top);
                }
            }
        },
        ResultView::Pop => {
            if old.len() > 1 {
                assert forall|i: int| 0 <= i < new.len() implies node_wf(#[trigger] new[i]) by {
                    assert(new[i] == old[i]);
                }
                assert forall|i: int| 1 <= i < new.len() implies #[trigger] opened_by_previous(
                    new,
                    i,
                ) by {
                    assert(opened_by_previous(old, i));
                    assert(new[i] == old[i] && new[i - 1] == old[i - 1]);
                }
            }
        },
    }
}

/// Entering a screen keeps its kind and its invariant.
proof fn lemma_entered_wf<F: FileSystem>(before: NodeView, fs: Option<F>, after: NodeView)
    requires
        node_wf(before),
        entered(before, fs, after),
    ensures
        node_wf(after),
        forall|p: NodeView| is_child(p, before) <==> is_child(p, after),
{
    if let NodeView::SdBrowser(b) = before {
        if let NodeView::SdBrowser(a) = after {
            assert(listing_applied(b, a, fs_listing(fs, b.current_path)));
        }
    }
}

/// A command sequence of at most one command holds `x` exactly when its
/// one command is `x`.
proof fn lemma_contains_short(s: Seq<Command>, x: Command)
    requires
        s.len() <= 1,
    ensures
        s.contains(x) <==> (s.len() == 1 && s[0] == x),
{
    if s.len() == 1 && s[0] == x {
        assert(s[0] == x);
    }
}

/// What one event's commands say about the stack: at most one command; the
/// keyboard starts exactly when it is opened and stops exactly when it is
/// closed; the backlight only gets levels from 1 to 100; keys are only typed
/// on the keyboard screen, which stays open; the depth changes by at most
/// one and the screens below the top are untouched.
proof fn lemma_step_commands<F: FileSystem>(
    old: Seq<NodeView>,
    event: EncoderEvent,
    fs: Option<F>,
    top: NodeView,
    result: ResultView,
    ecmds: Seq<Command>,
    new: Seq<NodeView>,
    cmds: Seq<Command>,
)
    requires
        app_wf(old),
        node_step(old.last(), event, fs, top, result, ecmds),
        after_step(old, top, result, ecmds, fs, new, cmds),
    ensures
        new.len() + 1 >= old.len(),
        new.len() <= old.len() + 1,
        new.subrange(0, old.len() - 1) == old.subrange(0, old.len() - 1),
        cmds.contains(Command::BleControl(BleControlEvent::Start)) <==> (new.len() == old.len() + 1
            && new.last() is BleKeyboard),
        cmds.contains(Command::BleControl(BleControlEvent::Stop)) <==> (new.len() + 1 == old.len()
            && old.last() is BleKeyboard),
        forall|b: u8| #[trigger] cmds.contains(Command::Backlight(b)) ==> 1 <= b <= 100,
        forall|k: BleKeyEvent|
            #[trigger] cmds.contains(Command::BleKey(k)) ==> old.last() is BleKeyboard && new == old,
{
    let last = old.last();
    assert(node_wf(last));
    let below = old.drop_last();
    assert(new.subrange(0, old.len() - 1) =~= old.subrange(0, old.len() - 1)) by {
        assert(below =~= old.subrange(0, old.len() - 1));
        if new.len() >= old.len() {
            assert forall|i: int| 0 <= i < old.len() - 1 implies new[i] == old[i] by {
                if result is Push {
                    assert(new[i] == new.drop_last()[i]);
                }
                assert(below.push(top)[i] == below[i]);
            }
        }
    }
    match result {
        ResultView::Push(n) => {
            assert(ecmds =~= Seq::<Command>::empty());
            assert(cmds =~= enter_commands(n));
            if let NodeView::SdBrowser(_) = n {
            } else {
                assert(new.last() == n);
            }
            if let NodeView::SdBrowser(a) = n {
                assert(new.last() is SdBrowser);
            }
        },
        ResultView::Pop => {
            assert(ecmds =~= Seq::<Command>::empty());
            if old.len() > 1 {
                assert(cmds =~= exit_commands(top));
            } else {
                assert(cmds =~= ecmds);
                assert(last is Root);
                assert(false);
            }
        },
        ResultView::Stay => {
            assert(cmds == ecmds);
            if last is BleKeyboard {
                assert(new =~= old);
            }
        },
    }
    assert(cmds.len() <= 1);
    lemma_contains_short(cmds, Command::BleControl(BleControlEvent::Start));
    lemma_contains_short(cmds, Command::BleControl(BleControlEvent::Stop));
    assert forall|b: u8| #[trigger] cmds.contains(Command::Backlight(b)) implies 1 <= b <= 100 by {
        lemma_contains_short(cmds, Command::Backlight(b));
    }
    assert forall|k: BleKeyEvent| #[trigger] cmds.contains(Command::BleKey(k)) implies old.last() is BleKeyboard
        && new == old by {
        lemma_contains_short(cmds, Command::BleKey(k));
    }
}

/// Law: leaving a screen right after entering it gives back the stack as it
/// was; the keyboard screen is the one whose entering starts the BLE
/// keyboard and whose leaving stops it.
pub proof fn law_push_then_pop<F: FileSystem>(s: Seq<NodeView>, node: NodeView, fs: Option<F>, e: NodeView)
    requires
        stack_wf(s),
        node_wf(node),
        entered(node, fs, e),
    ensures
        s.push(e).len() > 1,
        s.push(e).drop_last() == s,
        s.push(e).last() == e,
        enter_commands(node) + exit_commands(e) == if node is BleKeyboard {
            seq![
                Command::BleControl(BleControlEvent::Start),
                Command::BleControl(BleControlEvent::Stop),
            ]
        } else {
            Seq::<Command>::empty()
        },
{
    assert(s.push(e).drop_last() =~= s);
    if node is BleKeyboard {
        assert(e == node);
        assert(enter_commands(node) + exit_commands(e) =~= seq![
            Command::BleControl(BleControlEvent::Start),
            Command::BleControl(BleControlEvent::Stop),
        ]);
    } else {
        if let NodeView::SdBrowser(_) = node {
            assert(e is SdBrowser);
        } else {
            assert(e == node);
        }
        assert(enter_commands(node) + exit_commands(e) =~= Seq::<Command>::empty());
    }
}

/// Law: a confirm press and a back release navigate nowhere: on every
/// screen they leave the screen as it was, stay, and ask for nothing. (A
/// screen acts on the confirm button's release and the back button's press.)
pub proof fn law_press_and_release_do_nothing<F: FileSystem>(
    n: NodeView,
    event: EncoderEvent,
    fs: Option<F>,
    new: NodeView,
    result: ResultView,
    cmds: Seq<Command>,
)
    requires
        event == EncoderEvent::ConfirmPressed || event == EncoderEvent::BackReleased,
        node_step(n, event, fs, new, result, cmds),
    ensures
        result == ResultView::Stay,
        new == n,
        cmds == Seq::<Command>::empty(),
{
}

/// Law: on the whole application a confirm press or a back release changes
/// no screen and asks for nothing.
pub proof fn law_app_ignores_press_and_release<F: FileSystem>(
    old: Seq<NodeView>,
    event: EncoderEvent,
    fs: Option<F>,
    new: Seq<NodeView>,
    cmds: Seq<Command>,
)
    requires
        app_wf(old),
        event == EncoderEvent::ConfirmPressed || event == EncoderEvent::BackReleased,
        app_step(old, event, fs, new, cmds),
    ensures
        new == old,
        cmds == Seq::<Command>::empty(),
{
    let (top, result, ecmds) = choose|top: NodeView, result: ResultView, ecmds: Seq<Command>|
        #[trigger] node_step(old.last(), event, fs, top, result, ecmds) && after_step(
            old,
            top,
            result,
            ecmds,
            fs,
            new,
            cmds,
        );
    law_press_and_release_do_nothing(old.last(), event, fs, top, result, ecmds);
    assert(new =~= old);
}

/// Law: back closes every screen but the main menu, whichever entry is
/// selected, and returns to the screen below it; leaving the keyboard screen
/// stops the BLE keyboard, leaving the others asks for nothing; on the main
/// menu back does nothing; in the browser at the root directory back closes
/// it.
pub proof fn law_back_leaves_sub_screens<F: FileSystem>(
    old: Seq<NodeView>,
    fs: Option<F>,
    new: Seq<NodeView>,
    cmds: Seq<Command>,
)
    requires
        app_wf(old),
        app_step(old, EncoderEvent::BackPressed, fs, new, cmds),
    ensures
        old.last() is Root ==> new == old && cmds == Seq::<Command>::empty(),
        (old.last() is Ble || old.last() is Settings || old.last() is Brightness || old.last() is BleSpam)
            ==> new == old.drop_last() && cmds == Seq::<Command>::empty(),
        old.last() is BleKeyboard ==> new == old.drop_last() && cmds == seq![
            Command::BleControl(BleControlEvent::Stop),
        ],
        (old.last() matches NodeView::SdBrowser(v) && v.current_path.len() == 0) ==> new
            == old.drop_last() && cmds == Seq::<Command>::empty(),
{
    let event = EncoderEvent::BackPressed;
    let (top, result, ecmds) = choose|top: NodeView, result: ResultView, ecmds: Seq<Command>|
        #[trigger] node_step(old.last(), event, fs, top, result, ecmds) && after_step(
            old,
            top,
            result,
            ecmds,
            fs,
            new,
            cmds,
        );
    if old.last() is Root {
        if old.len() > 1 {
            assert(opened_by_previous(old, old.len() - 1));
        }
        assert(new =~= old);
    } else {
        assert(old.len() > 1) by {
            if old.len() == 1 {
                assert(old.last() == old[0]);
            }
        }
        if old.last() is BleKeyboard {
            assert(cmds =~= seq![Command::BleControl(BleControlEvent::Stop)]);
        } else if !(old.last() is SdBrowser) {
            assert(cmds =~= Seq::<Command>::empty());
        } else if old.last() matches NodeView::SdBrowser(v) && v.current_path.len() == 0 {
            assert(cmds =~= Seq::<Command>::empty());
        }
    }
}

/// Law: the brightness screen steps the backlight by one per detent within
/// 1..=100 and sends the new level; confirm's release and back's press
/// close it without commands; other events change nothing.
pub proof fn law_brightness_screen<F: FileSystem>(
    b: nat,
    event: EncoderEvent,
    fs: Option<F>,
    new: NodeView,
    result: ResultView,
    cmds: Seq<Command>,
)
    requires
        1 <= b <= 100,
        node_step(NodeView::Brightness(b), event, fs, new, result, cmds),
    ensures
        event == EncoderEvent::Clockwise && b < 100 ==> new == NodeView::Brightness(b + 1) && result
            == ResultView::Stay && cmds == seq![Command::Backlight((b + 1) as u8)],
        event == EncoderEvent::Clockwise && b == 100 ==> new == NodeView::Brightness(100) && result
            == ResultView::Stay && cmds == seq![Command::Backlight(100)],
        event == EncoderEvent::CounterClockwise && b > 1 ==> new == NodeView::Brightness(
            (b - 1) as nat,
        ) && result == ResultView::Stay && cmds == seq![Command::Backlight((b - 1) as u8)],
        event == EncoderEvent::CounterClockwise && b == 1 ==> new == NodeView::Brightness(1)
            && result == ResultView::Stay && cmds == seq![Command::Backlight(1)],
        (event == EncoderEvent::ConfirmReleased || event == EncoderEvent::BackPressed) ==> result
            == ResultView::Pop && cmds == Seq::<Command>::empty(),
        !(event == EncoderEvent::Clockwise || event == EncoderEvent::CounterClockwise || event
            == EncoderEvent::ConfirmReleased || event == EncoderEvent::BackPressed) ==> result
            == ResultView::Stay && new == NodeView::Brightness(b) && cmds == Seq::<Command>::empty(),
{
}

/// Law: in the BLE and settings menus back closes the menu whatever entry
/// is selected, and turning moves the selection by one within the entries;
/// the main menu ignores back.
pub proof fn law_menus<F: FileSystem>(
    n: NodeView,
    event: EncoderEvent,
    fs: Option<F>,
    new: NodeView,
    result: ResultView,
    cmds: Seq<Command>,
)
    requires
        node_wf(n),
        node_step(n, event, fs, new, result, cmds),
    ensures
        (n is Ble || n is Settings) && event == EncoderEvent::BackPressed ==> result == ResultView::Pop
            && cmds == Seq::<Command>::empty(),
        n is Root && event == EncoderEvent::BackPressed ==> result == ResultView::Stay && new == n,
        n matches NodeView::Root(s) ==> event == EncoderEvent::Clockwise ==> new == NodeView::Root(
            if s < 2 { s + 1 } else { s },
        ),
        n matches NodeView::Root(s) ==> event == EncoderEvent::CounterClockwise ==> new
            == NodeView::Root(if s > 0 { (s - 1) as nat } else { s }),
        n matches NodeView::Ble(s) ==> event == EncoderEvent::Clockwise ==> new == NodeView::Ble(
            if s < 1 { s + 1 } else { s },
        ),
        n matches NodeView::Ble(s) ==> event == EncoderEvent::CounterClockwise ==> new
            == NodeView::Ble(if s > 0 { (s - 1) as nat } else { s }),
{
}

} // verus!
