//! What a user can rely on: what keys, menus and the mouse do in a client, and what
//! becomes of what the server tells it.

use vstd::prelude::*;
use vstd::utf8::encode_utf8;
use crate::client::{
    item_message, item_quits, send, server_actions, ActionView, ClientView, DragState,
    RenameStateView,
};
use crate::clipboard::{selected_text, Selection};
use crate::events::{AppEvent, TerminalInput};
use crate::geometry::Rect;
use crate::hits::{hit_at, item_count, law_every_place_has_its_target, HitTarget, Menu};
use crate::input::{
    button_code, key_bytes, modifier_bits, mouse_report, KeyCode, KeyEvent, Modifiers, MouseButton,
    MouseEvent, MouseKind,
};
use crate::protocol::{ClientMessageView, ServerMessageView, WindowStateView};
use crate::scene::item_texts;
use crate::snapshot::applied;
use crate::store::{
    known, law_forgotten_window_is_gone, law_stored_window_is_found, lookup,
};
use crate::text::decimal;

verus! {

/// Whether just one message is sent.
pub open spec fn sends_just(actions: Seq<ActionView>, msg: ClientMessageView) -> bool {
    actions.len() == 1 && actions[0] == (ActionView::Send { msg })
}

/// Once the targets are worked out, what is at a place of the screen is what the
/// windows, the menus and the deskbar have there.
pub proof fn law_target_is_what_is_there(client: ClientView, x: int, y: int)
    requires
        0 <= x < client.screen.width,
        0 <= y < client.screen.height,
    ensures
        client.hits_updated().target(x, y) == hit_at(
            client.windows,
            client.menu,
            client.deskbar_minimized,
            client.screen.width as int,
            x,
            y,
        ),
        client.hits_updated() == (ClientView { hits: client.hits_updated().hits, ..client }),
{
    law_every_place_has_its_target(
        client.windows,
        client.menu,
        client.deskbar_minimized,
        client.screen,
        x,
        y,
    );
}

/// A key that is typed while no menu is open and no window is renamed goes to the
/// active window, as the bytes that it is for a terminal; only a page up or down
/// with the shift key, with the mouse beside the windows, scrolls that window by ten
/// rows instead. Without an active window nothing happens. A key that goes up does
/// nothing at all.
pub proof fn law_keys_go_to_the_active_window(client: ClientView, key: KeyEvent)
    requires
        client.rename is None,
        client.menu == Menu::Closed,
    ensures
        client.after_key(key) == client,
        !client.key_quits(key),
        !key.press || client.active is None ==> client.key_actions(key).len() == 0,
        key.press && client.active is Some ==> {
            let id = client.active->0;
            let beside = client.target(client.mouse.0 as int, client.mouse.1 as int).of_window()
                is None;
            let bytes = key_bytes(key.code, key.modifiers);
            let actions = client.key_actions(key);
            if beside && key.modifiers.shift && key.code == KeyCode::PageUp {
                sends_just(actions, ClientMessageView::Scroll { window_id: id, amount: 10 })
            } else if beside && key.modifiers.shift && key.code == KeyCode::PageDown {
                sends_just(actions, ClientMessageView::Scroll { window_id: id, amount: (-10) as i32 })
            } else if bytes.len() > 0 {
                sends_just(actions, ClientMessageView::Input { window_id: id, data: bytes })
            } else {
                actions.len() == 0
            }
        },
{
}

/// A client after some characters were typed.
pub open spec fn typed(client: ClientView, text: Seq<char>, m: Modifiers) -> ClientView
    decreases text.len(),
{
    if text.len() == 0 {
        client
    } else {
        typed(client, text.drop_last(), m).after_key(
            KeyEvent { code: KeyCode::Char(text.last()), modifiers: m, press: true },
        )
    }
}

/// While a window is renamed, what is typed is added to its name, and Enter sends
/// the name and ends that. Backspace takes the last character away, and Esc gives
/// up. Nothing else of the client changes, and nothing else is sent.
pub proof fn law_typed_name_is_sent(client: ClientView, text: Seq<char>, m: Modifiers)
    requires
        client.rename is Some,
    ensures
        ({
            let enter = KeyEvent { code: KeyCode::Enter, modifiers: m, press: true };
            let esc = KeyEvent { code: KeyCode::Esc, modifiers: m, press: true };
            let back = KeyEvent { code: KeyCode::Backspace, modifiers: m, press: true };
            let was = client.rename->0;
            let after = typed(client, text, m);
            &&& after.rename == Some(
                RenameStateView { window_id: was.window_id, input: was.input + text },
            )
            &&& after == (ClientView { rename: after.rename, ..client })
            &&& sends_just(
                after.key_actions(enter),
                ClientMessageView::RenameWindow {
                    window_id: was.window_id,
                    title: was.input + text,
                },
            )
            &&& after.after_key(enter) == (ClientView { rename: None, ..client })
            &&& after.after_key(esc) == (ClientView { rename: None, ..client })
            &&& after.key_actions(esc).len() == 0
            &&& after.key_actions(back).len() == 0
            &&& text.len() > 0 ==> after.after_key(back).rename->0.input == was.input
                + text.drop_last()
            &&& !after.key_quits(enter) && !after.key_quits(esc) && !after.key_quits(back)
        }),
    decreases text.len(),
{
    let was = client.rename->0;
    if text.len() == 0 {
        assert(was.input + text =~= was.input);
    } else {
        law_typed_name_is_sent(client, text.drop_last(), m);
        assert((was.input + text.drop_last()).push(text.last()) =~= was.input + text);
        assert((was.input + text).drop_last() =~= was.input + text.drop_last());
    }
}

/// In an open menu the arrows up and down move the choice by one entry, and stop at
/// its ends; those to the sides open the other menu at its first entry; Esc closes
/// it. None of them sends anything.
pub proof fn law_arrows_move_in_the_menus(client: ClientView, code: KeyCode, m: Modifiers)
    requires
        client.rename is None,
        client.menu != Menu::Closed,
        client.selected < item_count(client.menu),
        code == KeyCode::Up || code == KeyCode::Down || code == KeyCode::Left || code
            == KeyCode::Right || code == KeyCode::Esc,
    ensures
        ({
            let key = KeyEvent { code, modifiers: m, press: true };
            let after = client.after_key(key);
            &&& client.key_actions(key).len() == 0
            &&& !client.key_quits(key)
            &&& after == (ClientView { menu: after.menu, selected: after.selected, ..client })
            &&& code == KeyCode::Up ==> after.menu == client.menu && after.selected
                == if client.selected > 0 {
                client.selected - 1
            } else {
                0
            }
            &&& code == KeyCode::Down ==> after.menu == client.menu && after.selected
                == if client.selected + 1 < item_count(client.menu) {
                client.selected + 1
            } else {
                client.selected as int
            }
            &&& code == KeyCode::Left || code == KeyCode::Right ==> after.selected == 0
                && after.menu != client.menu && after.menu != Menu::Closed
            &&& code == KeyCode::Esc ==> after.menu == Menu::Closed && after.selected
                == client.selected
        }),
{
}

/// Enter chooses the entry of the open menu that is marked, a letter the entry that
/// it stands for, and a click the entry under the mouse: all three do the same. The
/// menu closes, but where the client ends.
pub proof fn law_entries_are_chosen_alike(
    client: ClientView,
    idx: usize,
    c: char,
    m: Modifiers,
    e: MouseEvent,
    now: u64,
)
    requires
        client.rename is None,
        client.menu != Menu::Closed,
        idx < item_count(client.menu),
        crate::client::mnemonic(client.menu, c) == Some(idx as int),
        client.drag is None,
        e.kind == MouseKind::Down(MouseButton::Left),
        client.target(e.column as int, e.row as int) == HitTarget::MenuItem(client.menu, idx),
    ensures
        ({
            let enter = KeyEvent { code: KeyCode::Enter, modifiers: m, press: true };
            let letter = KeyEvent { code: KeyCode::Char(c), modifiers: m, press: true };
            let marked = ClientView { selected: idx, ..client };
            let click = client.after_mouse(e, now);
            let ends = client.menu == Menu::File && idx == 5;
            &&& marked.key_actions(enter) == client.key_actions(letter)
            &&& click.actions == client.key_actions(letter)
            &&& marked.key_quits(enter) == ends && client.key_quits(letter) == ends && click.quit
                == ends
            &&& !ends ==> marked.after_key(enter).menu == Menu::Closed && client.after_key(
                letter,
            ).menu == Menu::Closed && click.client.menu == Menu::Closed
        }),
{
    let moved = ClientView { mouse: (e.column, e.row), ..client };
    let none = Seq::<ActionView>::empty();
    let rest = moved.handled(HitTarget::MenuItem(client.menu, idx), e, now).actions;
    assert(none + none + rest =~= rest);
}

/// The entries of the menus do what their texts say, to the active window where they
/// are about one.
pub proof fn law_menu_entries_do_what_they_say(client: ClientView, id: usize)
    requires
        client.active == Some(id),
    ensures
        ({
            let file = |i: int| item_message(client.active, client.screen, Menu::File, i);
            let window = |i: int| item_message(client.active, client.screen, Menu::Window, i);
            &&& item_texts(Menu::File)[0] == " New Terminal (N) "@
            &&& file(0) matches Some(
                ClientMessageView::CreateWindow { x, y, width, height, command, args },
            ) && width == 82 && height == 26 && command is None && args.len() == 0 && (82
                <= client.screen.width ==> x == (client.screen.width - 82) / 2) && (30
                <= client.screen.height ==> y == (client.screen.height - 26) / 2)
            &&& item_texts(Menu::File)[1] == " Save Layout (O)  "@
            &&& file(1) == Some(ClientMessageView::SaveLayout { path: "layout.json"@ })
            &&& item_texts(Menu::File)[2] == " Load Layout (I)  "@
            &&& file(2) == Some(ClientMessageView::LoadLayout { path: "layout.json"@ })
            &&& item_texts(Menu::File)[3] == " Capture Pane (V) "@
            &&& file(3) == Some(ClientMessageView::CapturePane { window_id: id })
            &&& item_texts(Menu::File)[4] == " Capture Full (P) "@
            &&& file(4) == Some(ClientMessageView::CaptureFull)
            &&& item_texts(Menu::File)[5] == " Quit (Q)         "@
            &&& file(5) is None && item_quits(Menu::File, 5)
            &&& item_texts(Menu::Window)[0] == " Close (Z)        "@
            &&& window(0) == Some(ClientMessageView::CloseWindow { window_id: id })
            &&& item_texts(Menu::Window)[1] == " Minimize (X)     "@
            &&& window(1) == Some(ClientMessageView::MinimizeWindow { window_id: id })
            &&& item_texts(Menu::Window)[2] == " Maximize (C)     "@
            &&& window(2) == Some(ClientMessageView::MaximizeWindow { window_id: id })
            &&& item_texts(Menu::Window)[3] == " Solo (S)         "@
            &&& window(3) == Some(ClientMessageView::ToggleSolo { window_id: id })
            &&& item_texts(Menu::Window)[4] == " Fullscreen (F)   "@
            &&& window(4) == Some(ClientMessageView::ToggleFullscreen { window_id: id })
            &&& item_texts(Menu::Window)[5] == " Tile Grid (G)    "@
            &&& window(5) == Some(ClientMessageView::TileWindows)
            &&& item_texts(Menu::Window)[6] == " Clear History (L)"@
            &&& window(6) == Some(ClientMessageView::ClearScrollback { window_id: id })
            &&& forall|i: int| #[trigger] item_quits(Menu::File, i) ==> i == 5
            &&& forall|i: int| !(#[trigger] item_quits(Menu::Window, i))
        }),
{
}

/// An entry that is chosen sends its message, and nothing else; entries about the
/// active window send none where there is no such window.
pub proof fn law_chosen_entry_sends_its_message(client: ClientView, menu: Menu, idx: int)
    ensures
        item_message(client.active, client.screen, menu, idx) matches Some(msg) ==> sends_just(
            client.item_actions(menu, idx),
            msg,
        ),
        item_message(client.active, client.screen, menu, idx) is None ==> client.item_actions(
            menu,
            idx,
        ).len() == 0,
        client.active is None ==> {
            let file = item_message(client.active, client.screen, Menu::File, idx);
            let window = item_message(client.active, client.screen, Menu::Window, idx);
            &&& idx == 3 ==> file is None
            &&& idx != 5 ==> window is None
            &&& 0 <= idx < 5 && idx != 3 ==> file is Some
            &&& idx == 5 ==> window == Some(ClientMessageView::TileWindows)
        },
{
}

/// When the terminal of a client changes its size, the server is told, and the client
/// has the new size.
pub proof fn law_new_size_is_reported(
    client: ClientView,
    width: u16,
    height: u16,
    now_ms: u64,
    now_secs: u64,
)
    ensures
        ({
            let event = AppEvent::Terminal { input: TerminalInput::Resize { width, height } };
            let out = client.after(event, now_ms, now_secs);
            &&& sends_just(out.actions, ClientMessageView::TerminalResize { width, height })
            &&& !out.quit
            &&& out.client.screen == (Rect { x: 0, y: 0, width, height })
            &&& out.client == (ClientView {
                screen: out.client.screen,
                hits: out.client.hits,
                ..client
            })
            &&& out.client.hits.len() == width * height
            &&& client.hits.len() == width * height ==> out.client.hits == client.hits
        }),
{
}

/// What the server tells of a window is what the client then has of it, and the other
/// windows stay as they are. A window that has the focus becomes the active one.
pub proof fn law_updated_window_is_known_anew(
    client: ClientView,
    win: WindowStateView,
    other: usize,
)
    requires
        client.wf(),
    ensures
        ({
            let a = client.after_server(ServerMessageView::WindowUpdate { window: win });
            let b = client.after_server(ServerMessageView::WindowCreated { window: win });
            &&& a == b
            &&& lookup(a.windows, win.id) == Some(win)
            &&& other != win.id ==> lookup(a.windows, other) == lookup(client.windows, other)
            &&& win.focused ==> a.active == Some(win.id)
            &&& !win.focused ==> a.active == client.active
            &&& a == (ClientView { windows: a.windows, active: a.active, ..client })
        }),
{
    law_stored_window_is_found(client.windows, win, win.id);
    law_stored_window_is_found(client.windows, win, other);
}

/// A window that the server says is closed is not known any more; the others stay.
pub proof fn law_closed_window_is_forgotten(client: ClientView, id: usize, other: usize)
    requires
        client.wf(),
    ensures
        ({
            let after = client.after_server(ServerMessageView::WindowClosed { window_id: id });
            &&& lookup(after.windows, id) is None
            &&& other != id ==> lookup(after.windows, other) == lookup(client.windows, other)
            &&& after == (ClientView { windows: after.windows, ..client })
        }),
{
    law_forgotten_window_is_gone(client.windows, id, id);
    law_forgotten_window_is_gone(client.windows, id, other);
}

/// The changed cells that the server tells of are put into the screen of the window,
/// with its cursor and how far it is scrolled; nothing else changes.
pub proof fn law_changed_cells_are_put_in(
    client: ClientView,
    id: usize,
    cells: Seq<(usize, crate::protocol::Cell)>,
    cursor_pos: Option<(u16, u16)>,
    scrollback_size: usize,
    scroll_offset: usize,
    other: usize,
)
    requires
        client.wf(),
    ensures
        ({
            let msg = ServerMessageView::ScreenDiff {
                window_id: id,
                cells,
                cursor_pos,
                scrollback_size,
                scroll_offset,
            };
            let after = client.after_server(msg);
            &&& other != id ==> lookup(after.windows, other) == lookup(client.windows, other)
            &&& lookup(client.windows, id) matches Some(win) ==> lookup(after.windows, id) == Some(
                WindowStateView {
                    screen: applied(win.screen, cells),
                    cursor_pos,
                    scrollback_size,
                    scroll_offset,
                    ..win
                },
            )
            &&& lookup(client.windows, id) is None ==> after == client
            &&& after == (ClientView { windows: after.windows, ..client })
        }),
{
    if lookup(client.windows, id) is Some {
        let win = lookup(client.windows, id)->0;
        let now = WindowStateView {
            screen: applied(win.screen, cells),
            cursor_pos,
            scrollback_size,
            scroll_offset,
            ..win
        };
        law_stored_window_is_found(client.windows, now, id);
        law_stored_window_is_found(client.windows, now, other);
    }
}

/// A capture that comes from the server is written to a file as it is, and copied
/// text is passed on to the terminal; other messages have nothing else done.
pub proof fn law_captures_are_written_to_files(
    id: usize,
    text: Seq<char>,
    seconds: u64,
    msg: ServerMessageView,
)
    ensures
        server_actions(ServerMessageView::PaneCaptured { window_id: id, text }, seconds) == seq![
            ActionView::SaveFile {
                name: "capture_window_"@ + decimal(id as nat) + seq!['_'] + decimal(seconds as nat)
                    + ".txt"@,
                text,
            },
        ],
        server_actions(ServerMessageView::FullCaptured { text }, seconds) == seq![
            ActionView::SaveFile {
                name: "capture_full_"@ + decimal(seconds as nat) + ".txt"@,
                text,
            },
        ],
        server_actions(ServerMessageView::ClipboardUpdate { text_b64: text }, seconds) == seq![
            ActionView::WriteOut { text: "\x1b]52;c;"@ + text + "\x07"@ },
        ],
        !(msg is PaneCaptured) && !(msg is FullCaptured) && !(msg is ClipboardUpdate)
            ==> server_actions(msg, seconds).len() == 0,
{
}

/// The client ends on the message that shuts it down, and on no other.
pub proof fn law_client_ends_with_the_server(
    client: ClientView,
    msg: crate::protocol::ServerMessage,
    now_ms: u64,
    now_secs: u64,
)
    ensures
        client.after(AppEvent::Server { msg }, now_ms, now_secs).quit <==> msg@ is Shutdown,
        client.after(AppEvent::Server { msg }, now_ms, now_secs).client == client.after_server(
            msg@,
        ),
{
}

/// What a mouse event does that no drag and no hovering takes.
proof fn lemma_plain_event(client: ClientView, m: MouseEvent, now: u64)
    requires
        client.drag is None,
        m.kind != MouseKind::Moved,
    ensures
        ({
            let moved = ClientView { mouse: (m.column, m.row), ..client };
            let target = client.target(m.column as int, m.row as int);
            client.after_mouse(m, now) == moved.handled(target, m, now)
        }),
{
    let moved = ClientView { mouse: (m.column, m.row), ..client };
    let target = client.target(m.column as int, m.row as int);
    let rest = moved.handled(target, m, now);
    let none = Seq::<ActionView>::empty();
    assert(moved.target(m.column as int, m.row as int) == target);
    assert(none + none + rest.actions =~= rest.actions);
}

/// A click on a button of a window sends what the button stands for, and does nothing
/// else: it closes, minimizes, maximizes, fills the screen with, or isolates the
/// window, or gives its terminal 80 columns and 24 rows.
pub proof fn law_buttons_do_what_they_show(
    client: ClientView,
    m: MouseEvent,
    id: usize,
    now: u64,
)
    requires
        client.drag is None,
        m.kind == MouseKind::Down(MouseButton::Left),
    ensures
        ({
            let target = client.target(m.column as int, m.row as int);
            let out = client.after_mouse(m, now);
            let msg = match target {
                HitTarget::CloseButton(id) => Some(ClientMessageView::CloseWindow { window_id: id }),
                HitTarget::MinimizeButton(id) => Some(
                    ClientMessageView::MinimizeWindow { window_id: id },
                ),
                HitTarget::MaximizeButton(id) => Some(
                    ClientMessageView::MaximizeWindow { window_id: id },
                ),
                HitTarget::FullscreenButton(id) => Some(
                    ClientMessageView::ToggleFullscreen { window_id: id },
                ),
                HitTarget::SoloButton(id) => Some(ClientMessageView::ToggleSolo { window_id: id }),
                HitTarget::ResetButton(id) => Some(
                    ClientMessageView::ResizeWindow { window_id: id, width: 82, height: 26 },
                ),
                _ => None,
            };
            msg is Some ==> sends_just(out.actions, msg->0) && !out.quit && out.client == (
            ClientView { mouse: (m.column, m.row), ..client })
        }),
{
    lemma_plain_event(client, m, now);
}

/// A click on an entry of the deskbar brings the window of that entry to the front,
/// and one on its button shows or hides the deskbar. A click on the label of a menu
/// opens it, or closes it where it is open.
pub proof fn law_bars_react_to_clicks(client: ClientView, m: MouseEvent, now: u64)
    requires
        client.drag is None,
        m.kind == MouseKind::Down(MouseButton::Left),
    ensures
        ({
            let target = client.target(m.column as int, m.row as int);
            let here = ClientView { mouse: (m.column, m.row), ..client };
            let out = client.after_mouse(m, now);
            &&& target matches HitTarget::Deskbar(i) ==> if i < client.windows.len() {
                let id = client.windows[i as int].id;
                sends_just(out.actions, ClientMessageView::FocusWindow { window_id: id })
                    && out.client == (ClientView { active: Some(id), ..here })
            } else {
                out.actions.len() == 0 && out.client == here
            }
            &&& target == HitTarget::DeskbarMinimizeButton ==> out.actions.len() == 0 && out.client
                == (ClientView { deskbar_minimized: !client.deskbar_minimized, ..here })
            &&& target matches HitTarget::MenuLabel(menu) ==> out.actions.len() == 0 && out.client
                == (ClientView {
                menu: if client.menu == menu {
                    Menu::Closed
                } else {
                    menu
                },
                ..here
            })
            &&& target == HitTarget::Nothing ==> out.actions.len() == 0 && out.client == (
            ClientView { menu: Menu::Closed, ..here })
        }),
{
    lemma_plain_event(client, m, now);
}

/// A click with the right button and the control key beside the windows asks for a
/// window there whose terminal has 80 columns and 24 rows.
pub proof fn law_control_click_opens_a_window(client: ClientView, m: MouseEvent, now: u64)
    requires
        client.drag is None,
        m.kind == MouseKind::Down(MouseButton::Right),
        client.target(m.column as int, m.row as int) == HitTarget::Nothing,
    ensures
        m.modifiers.control ==> sends_just(
            client.after_mouse(m, now).actions,
            ClientMessageView::CreateWindow {
                x: m.column,
                y: m.row,
                width: 82,
                height: 26,
                command: None,
                args: Seq::empty(),
            },
        ),
        !m.modifiers.control ==> client.after_mouse(m, now).actions.len() == 0,
{
    lemma_plain_event(client, m, now);
}

/// Whether a drag of a window is under way from where it is and where the mouse is.
pub open spec fn is_drag_from(d: DragState, win: WindowStateView, m: MouseEvent) -> bool {
    &&& d.window_id == win.id
    &&& d.start_mouse == (m.column, m.row)
    &&& d.start_rect.x == win.x && d.start_rect.y == win.y
    &&& win.x + win.width <= u16::MAX ==> d.start_rect.width == win.width
    &&& win.y + win.height <= u16::MAX && !win.minimized ==> d.start_rect.height == win.height
}

/// Pressing the left button on the title or the border of a window brings it to the
/// front and starts to move it, and on its corner to resize it. A second press within
/// half a second renames the window instead, beginning with the name that it has.
pub proof fn law_frames_are_dragged_and_renamed(
    client: ClientView,
    m: MouseEvent,
    id: usize,
    now: u64,
)
    requires
        client.drag is None,
        m.kind == MouseKind::Down(MouseButton::Left),
        lookup(client.windows, id) is Some,
        lookup(client.windows, id)->0.id == id,
        ({
            let target = client.target(m.column as int, m.row as int);
            target == HitTarget::WindowTitle(id) || target == HitTarget::WindowBorder(id) || target
                == HitTarget::WindowResize(id)
        }),
    ensures
        ({
            let target = client.target(m.column as int, m.row as int);
            let win = lookup(client.windows, id)->0;
            let out = client.after_mouse(m, now);
            let again = client.last_click matches Some((last, at)) && last == id && now < at + 500;
            let corner = m.modifiers.control && m.column >= win.x + win.width - 2 && m.row >= win.y
                + win.height - 1;
            &&& sends_just(out.actions, ClientMessageView::FocusWindow { window_id: id })
            &&& out.client.active == Some(id)
            &&& again ==> {
                &&& out.client.rename == Some(RenameStateView { window_id: id, input: win.title })
                &&& out.client.drag is None
                &&& out.client.last_click is None
            }
            &&& !again ==> {
                &&& out.client.drag matches Some(d) && is_drag_from(d, win, m) && d.is_resize == (
                target == HitTarget::WindowResize(id) || corner) && d.last_update == now
                &&& out.client.rename == client.rename
                &&& out.client.last_click == Some((id, now))
            }
            &&& out.client.windows == client.windows
        }),
{
    lemma_plain_event(client, m, now);
}

/// While a window is dragged, the server is told, not more often than every 16
/// milliseconds, to move it, or to resize it, by as much as the mouse has moved since
/// the drag began. It is not moved off the left or upper edge, nor made smaller than
/// ten columns and three rows. The drag ends with the button.
pub proof fn law_dragged_window_follows_the_mouse(
    client: ClientView,
    m: MouseEvent,
    button: MouseButton,
    d: DragState,
    now: u64,
)
    requires
        client.drag == Some(d),
        known(client.windows, d.window_id),
        m.kind == MouseKind::Drag(button),
    ensures
        ({
            let out = client.after_mouse(m, now);
            let here = ClientView { mouse: (m.column, m.row), ..client };
            let dx = m.column - d.start_mouse.0;
            let dy = m.row - d.start_mouse.1;
            let r = d.start_rect;
            &&& now < d.last_update + 16 ==> out.actions.len() == 0 && out.client == here
            &&& now >= d.last_update + 16 ==> {
                &&& out.client == (ClientView {
                    drag: Some(DragState { last_update: now, ..d }),
                    ..here
                })
                &&& !d.is_resize && r.x + dx <= u16::MAX && r.y + dy <= u16::MAX ==> sends_just(
                    out.actions,
                    ClientMessageView::MoveWindow {
                        window_id: d.window_id,
                        x: if r.x + dx < 0 {
                            0
                        } else {
                            (r.x + dx) as u16
                        },
                        y: if r.y + dy < 0 {
                            0
                        } else {
                            (r.y + dy) as u16
                        },
                    },
                )
                &&& d.is_resize && r.width + dx <= u16::MAX && r.height + dy <= u16::MAX
                    ==> sends_just(
                    out.actions,
                    ClientMessageView::ResizeWindow {
                        window_id: d.window_id,
                        width: if r.width + dx < 10 {
                            10
                        } else {
                            (r.width + dx) as u16
                        },
                        height: if r.height + dy < 3 {
                            3
                        } else {
                            (r.height + dy) as u16
                        },
                    },
                )
            }
        }),
{
    let here = ClientView { mouse: (m.column, m.row), ..client };
    let target = here.target(m.column as int, m.row as int);
    let none = Seq::<ActionView>::empty();
    let rest = here.drag_step(m, now).actions;
    assert(none + none + rest =~= rest);
}

/// A drag ends when a button goes up, and nothing is sent then.
pub proof fn law_drag_ends_with_the_button(
    client: ClientView,
    m: MouseEvent,
    button: MouseButton,
    now: u64,
)
    requires
        client.drag is Some,
        m.kind == MouseKind::Up(button),
    ensures
        client.after_mouse(m, now).client == (ClientView {
            mouse: (m.column, m.row),
            drag: None,
            ..client
        }),
        client.after_mouse(m, now).actions.len() == 0,
{
}

/// Pressing a button inside a window brings the window to the front. The left one
/// marks where a selection may begin, and drops an old one; with the control key it
/// starts to move the window instead; the right one pastes. Where the application
/// wants the mouse, it is told instead.
pub proof fn law_presses_inside_a_window(
    client: ClientView,
    m: MouseEvent,
    button: MouseButton,
    id: usize,
    now: u64,
)
    requires
        client.drag is None,
        m.kind == MouseKind::Down(button),
        client.target(m.column as int, m.row as int) == HitTarget::WindowContent(id),
        lookup(client.windows, id) is Some,
        lookup(client.windows, id)->0.id == id,
        lookup(client.windows, id)->0.x < m.column,
        lookup(client.windows, id)->0.y < m.row,
    ensures
        ({
            let win = lookup(client.windows, id)->0;
            let out = client.after_mouse(m, now);
            let here = ClientView { mouse: (m.column, m.row), active: Some(id), ..client };
            let row = (m.row - win.y - 1) as u16;
            let col = (m.column - win.x - 1) as u16;
            &&& out.actions[0] == (ActionView::Send {
                msg: ClientMessageView::FocusWindow { window_id: id },
            })
            &&& out.client.windows == client.windows
            &&& win.mouse_reporting ==> out.client == here && out.actions.len() == 2
                && out.actions[1] == (ActionView::Send {
                msg: ClientMessageView::Input {
                    window_id: id,
                    data: mouse_report(
                        button_code(button) + modifier_bits(m.modifiers),
                        col as int,
                        row as int,
                        false,
                    ),
                },
            })
            &&& !win.mouse_reporting && button == MouseButton::Left && !m.modifiers.control
                ==> out.actions.len() == 1 && out.client == (ClientView {
                pending: Some((id, row, col)),
                selection: None,
                ..here
            })
            &&& !win.mouse_reporting && button == MouseButton::Left && m.modifiers.control ==> {
                &&& out.actions.len() == 1
                &&& out.client.drag matches Some(d) && is_drag_from(d, win, m) && d.is_resize == (
                m.column >= win.x + win.width - 2 && m.row >= win.y + win.height - 1)
                    && d.last_update == now
                &&& out.client.selection is None && out.client.pending is None
            }
            &&& !win.mouse_reporting && button == MouseButton::Right ==> out.client == here
                && out.actions.len() == 2 && out.actions[1] == (ActionView::Paste { window_id: id })
            &&& !win.mouse_reporting && button == MouseButton::Middle ==> out.client == here
                && out.actions.len() == 1
        }),
{
    lemma_plain_event(client, m, now);
    let win = lookup(client.windows, id)->0;
    let moved = ClientView { mouse: (m.column, m.row), ..client };
    let focus = seq![send(ClientMessageView::FocusWindow { window_id: id })];
    let inner = moved.activated(id).content_pressed(win, m, button, now);
    assert(client.after_mouse(m, now).actions == focus + inner.actions);
}

/// A selection goes from where the left button went down to where the mouse is, as
/// long as it is inside that window, which is the active one; where it has not moved
/// yet there is none.
pub proof fn law_selection_follows_the_mouse(
    client: ClientView,
    m: MouseEvent,
    id: usize,
    row: u16,
    col: u16,
    now: u64,
)
    requires
        client.drag is None,
        client.scrollbar_drag is None,
        client.active == Some(id),
        m.kind == MouseKind::Drag(MouseButton::Left),
        client.target(m.column as int, m.row as int) == HitTarget::WindowContent(id),
        lookup(client.windows, id) is Some,
        lookup(client.windows, id)->0.id == id,
        !lookup(client.windows, id)->0.mouse_reporting,
        lookup(client.windows, id)->0.x < m.column,
        lookup(client.windows, id)->0.y < m.row,
        client.pending == Some((id, row, col)),
    ensures
        ({
            let win = lookup(client.windows, id)->0;
            let out = client.after_mouse(m, now);
            let end = ((m.row - win.y - 1) as u16, (m.column - win.x - 1) as u16);
            &&& out.actions.len() == 0
            &&& (row, col) != end ==> out.client.selection == Some(
                Selection { window_id: id, start: (row, col), end },
            )
            &&& (row, col) == end ==> out.client.selection == client.selection
            &&& out.client == (ClientView {
                mouse: (m.column, m.row),
                selection: out.client.selection,
                ..client
            })
        }),
{
    lemma_plain_event(client, m, now);
}

/// When the left button goes up, the selected text is copied, to the clipboard of the
/// client and to that of the system, and the selection is over. Without a selection
/// nothing is copied. Other buttons do not copy.
pub proof fn law_selected_text_is_copied(
    client: ClientView,
    m: MouseEvent,
    button: MouseButton,
    now: u64,
)
    requires
        client.drag is None,
        m.kind == MouseKind::Up(button),
        client.active is None || lookup(client.windows, client.active->0) is None || !lookup(
            client.windows,
            client.active->0,
        )->0.mouse_reporting,
    ensures
        ({
            let out = client.after_mouse(m, now);
            let here = ClientView { mouse: (m.column, m.row), ..client };
            let left = button == MouseButton::Left;
            let copied = left && client.selection is Some && client.selection->0.start
                != client.selection->0.end && lookup(
                client.windows,
                client.selection->0.window_id,
            ) is Some;
            &&& copied ==> {
                let sel = client.selection->0;
                let win = lookup(client.windows, sel.window_id)->0;
                let text = selected_text(win, sel.start, sel.end);
                &&& out.actions.len() == 1
                &&& out.actions[0] == (ActionView::Copy { text })
                &&& out.client.clipboard == text
            }
            &&& !copied ==> out.actions.len() == 0 && out.client.clipboard == client.clipboard
            &&& left ==> out.client == (ClientView {
                clipboard: out.client.clipboard,
                selection: None,
                pending: None,
                scrollbar_drag: None,
                ..here
            })
            &&& !left ==> out.client == here
        }),
{
    lemma_plain_event(client, m, now);
}

/// Pasting sends the text of the system's clipboard to the window; where there is
/// none, the text that was copied in the client, which is then used up; where there is
/// none either, nothing.
pub proof fn law_pasted_text_is_sent(client: ClientView, id: usize, system: Option<Seq<char>>)
    ensures
        ({
            let out = client.pasted(id, system);
            &&& system matches Some(text) ==> out.client == client && sends_just(
                out.actions,
                ClientMessageView::Input { window_id: id, data: encode_utf8(text) },
            )
            &&& system is None && client.clipboard.len() > 0 ==> out.client == (ClientView {
                clipboard: Seq::empty(),
                ..client
            }) && sends_just(
                out.actions,
                ClientMessageView::Input { window_id: id, data: encode_utf8(client.clipboard) },
            )
            &&& system is None && client.clipboard.len() == 0 ==> out.client == client
                && out.actions.len() == 0
            &&& !out.quit
        }),
{
}

/// Where the application in the active window wants the mouse, it is told when the
/// wheel is turned over it, when a button goes up, and when the mouse moves over it
/// with a button down, with the place inside the window.
pub proof fn law_applications_are_told_of_the_mouse(
    client: ClientView,
    m: MouseEvent,
    id: usize,
    now: u64,
)
    requires
        client.drag is None,
        client.scrollbar_drag is None,
        client.selection is None,
        client.active == Some(id),
        client.target(m.column as int, m.row as int) == HitTarget::WindowContent(id),
        lookup(client.windows, id) is Some,
        lookup(client.windows, id)->0.id == id,
        lookup(client.windows, id)->0.x < m.column,
        lookup(client.windows, id)->0.y < m.row,
    ensures
        ({
            let win = lookup(client.windows, id)->0;
            let out = client.after_mouse(m, now);
            let col = m.column - win.x - 1;
            let row = m.row - win.y - 1;
            let held = modifier_bits(m.modifiers);
            let report = |code: int, release: bool|
                ClientMessageView::Input {
                    window_id: id,
                    data: mouse_report(code, col, row, release),
                };
            let wants = win.mouse_reporting;
            &&& m.kind == MouseKind::ScrollUp ==> if wants {
                sends_just(out.actions, report(64, false))
            } else {
                out.actions.len() == 0
            }
            &&& m.kind == MouseKind::ScrollDown ==> if wants {
                sends_just(out.actions, report(65, false))
            } else {
                out.actions.len() == 0
            }
            &&& m.kind matches MouseKind::Up(button) ==> if wants {
                sends_just(out.actions, report(button_code(button) + held, true))
            } else {
                out.actions.len() == 0
            }
            &&& m.kind matches MouseKind::Drag(button) ==> if wants {
                sends_just(out.actions, report(32 + button_code(button) + held, false))
            } else {
                out.actions.len() == 0
            }
        }),
{
    if m.kind != MouseKind::Moved {
        lemma_plain_event(client, m, now);
        let none = Seq::<ActionView>::empty();
        let moved = ClientView { mouse: (m.column, m.row), ..client };
        if let MouseKind::Up(button) = m.kind {
            let rest = moved.release_report(m, button);
            assert(none + rest =~= rest);
        }
    }
}

/// A press of the left button on a scroll bar brings its window to the front and
/// scrolls to where the bar was pressed; until the button goes up, the view follows
/// the mouse.
pub proof fn law_scroll_bars_are_dragged(
    client: ClientView,
    m: MouseEvent,
    id: usize,
    now: u64,
)
    requires
        client.drag is None,
        m.kind == MouseKind::Down(MouseButton::Left),
        client.target(m.column as int, m.row as int) == HitTarget::WindowScrollbar(id),
        lookup(client.windows, id) is Some,
        lookup(client.windows, id)->0.id == id,
        lookup(client.windows, id)->0.y < m.row,
        lookup(client.windows, id)->0.height > 2,
    ensures
        ({
            let win = lookup(client.windows, id)->0;
            let out = client.after_mouse(m, now);
            &&& out.client == (ClientView {
                mouse: (m.column, m.row),
                active: Some(id),
                scrollbar_drag: Some(id),
                ..client
            })
            &&& out.actions[0] == (ActionView::Send {
                msg: ClientMessageView::FocusWindow { window_id: id },
            })
            &&& win.scrollback_size == 0 ==> out.actions.len() == 1
            &&& win.scrollback_size > 0 ==> out.actions.len() == 2 && out.actions[1] == (
            ActionView::TrackScrollbar {
                window_id: id,
                inner_height: (win.height - 2) as u16,
                history: win.scrollback_size,
                row: (m.row - win.y - 1) as u16,
                always: true,
            })
        }),
{
    lemma_plain_event(client, m, now);
}

/// While a scroll bar is held, each move of the mouse scrolls to where it is.
pub proof fn law_held_scroll_bar_follows_the_mouse(
    client: ClientView,
    m: MouseEvent,
    id: usize,
    now: u64,
)
    requires
        client.drag is None,
        m.kind == MouseKind::Drag(MouseButton::Left),
        client.scrollbar_drag == Some(id),
        lookup(client.windows, id) is Some,
        lookup(client.windows, id)->0.id == id,
        lookup(client.windows, id)->0.height > 2,
        lookup(client.windows, id)->0.scrollback_size > 0,
    ensures
        ({
            let win = lookup(client.windows, id)->0;
            let out = client.after_mouse(m, now);
            &&& out.client == (ClientView { mouse: (m.column, m.row), ..client })
            &&& out.actions == seq![
                ActionView::TrackScrollbar {
                    window_id: id,
                    inner_height: (win.height - 2) as u16,
                    history: win.scrollback_size,
                    row: if m.row > win.y {
                        (m.row - win.y - 1) as u16
                    } else {
                        0
                    },
                    always: false,
                },
            ]
        }),
{
    lemma_plain_event(client, m, now);
}

/// Where a scroll bar scrolls to, the server is told, and the window is shown there
/// at once; where the view is there already, nothing is said unless it was asked for.
pub proof fn law_scroll_bar_scrolls_the_window(
    client: ClientView,
    id: usize,
    offset: usize,
    always: bool,
    other: usize,
)
    requires
        client.wf(),
        lookup(client.windows, id) is Some,
        lookup(client.windows, id)->0.id == id,
    ensures
        ({
            let win = lookup(client.windows, id)->0;
            let out = client.scrolled_to(id, offset, always);
            let stays = !always && offset == win.scroll_offset;
            &&& stays ==> out.client == client && out.actions.len() == 0
            &&& !stays ==> {
                &&& sends_just(out.actions, ClientMessageView::ScrollTo { window_id: id, offset })
                &&& lookup(out.client.windows, id) == Some(
                    WindowStateView { scroll_offset: offset, ..win },
                )
                &&& other != id ==> lookup(out.client.windows, other) == lookup(
                    client.windows,
                    other,
                )
                &&& out.client == (ClientView { windows: out.client.windows, ..client })
            }
        }),
{
    let win = lookup(client.windows, id)->0;
    let now = WindowStateView { scroll_offset: offset, ..win };
    law_stored_window_is_found(client.windows, now, id);
    law_stored_window_is_found(client.windows, now, other);
}

/// While solo mode is on and the mouse just moves: over the title of a minimized
/// window that is not the solo one, that window is shown, and one shown before is
/// minimized again; beside a window that was shown so, and not over another hidden
/// title, that is minimized again. Without solo mode nothing of this happens.
pub proof fn law_hidden_windows_are_shown_under_the_mouse(
    client: ClientView,
    m: MouseEvent,
    now: u64,
)
    requires
        m.kind == MouseKind::Moved,
        client.drag is None,
        !(client.target(m.column as int, m.row as int) is WindowContent),
    ensures
        ({
            let target = client.target(m.column as int, m.row as int);
            let out = client.after_mouse(m, now);
            let here = ClientView { mouse: (m.column, m.row), ..client };
            let collapse = |id: usize|
                ActionView::Send { msg: ClientMessageView::TemporaryCollapse { window_id: id } };
            let expand = |id: usize|
                ActionView::Send { msg: ClientMessageView::TemporaryExpand { window_id: id } };
            &&& !client.solo_active ==> out.client == here && out.actions.len() == 0
            &&& client.solo_active ==> {
                &&& target matches HitTarget::WindowTitle(id) ==> (Some(id) != client.solo_origin
                    && client.expanded != Some(id) && lookup(client.windows, id) is Some && lookup(
                    client.windows,
                    id,
                )->0.minimized ==> (out.client == (ClientView { expanded: Some(id), ..here })
                    && out.actions == if client.expanded is Some {
                    seq![collapse(client.expanded->0), expand(id)]
                } else {
                    seq![expand(id)]
                }))
                &&& client.expanded is Some && target.of_window() is None ==> (out.client == (
                ClientView { expanded: None, ..here }) && out.actions == seq![
                    collapse(client.expanded->0),
                ])
                &&& client.expanded is Some && target.of_window() == client.expanded ==> out.client
                    == here && out.actions.len() == 0
                &&& client.expanded is None && !(target is WindowTitle) ==> out.client == here
                    && out.actions.len() == 0
            }
        }),
{
    let target = client.target(m.column as int, m.row as int);
    let here = ClientView { mouse: (m.column, m.row), ..client };
    let none = Seq::<ActionView>::empty();
    let hover = here.hovered(target, m.kind);
    assert(here.target(m.column as int, m.row as int) == target);
    assert(hover.actions + none + none =~= hover.actions);
    assert(hover.client.move_report(target, m) =~= none);
    assert(hover.client.handled(target, m, now).actions =~= none);
    assert(client.after_mouse(m, now).actions =~= hover.actions);
}

/// An application that wants the mouse is told when it moves over its window.
pub proof fn law_moves_are_reported(client: ClientView, m: MouseEvent, id: usize, now: u64)
    requires
        m.kind == MouseKind::Moved,
        client.drag is None,
        !client.solo_active,
        client.target(m.column as int, m.row as int) == HitTarget::WindowContent(id),
        lookup(client.windows, id) is Some,
        lookup(client.windows, id)->0.id == id,
        lookup(client.windows, id)->0.x < m.column,
        lookup(client.windows, id)->0.y < m.row,
    ensures
        ({
            let win = lookup(client.windows, id)->0;
            let out = client.after_mouse(m, now);
            &&& win.mouse_reporting ==> sends_just(
                out.actions,
                ClientMessageView::Input {
                    window_id: id,
                    data: mouse_report(35, m.column - win.x - 1, m.row - win.y - 1, false),
                },
            )
            &&& !win.mouse_reporting ==> out.actions.len() == 0
            &&& out.client == (ClientView { mouse: (m.column, m.row), ..client })
        }),
{
    let target = client.target(m.column as int, m.row as int);
    let here = ClientView { mouse: (m.column, m.row), ..client };
    let none = Seq::<ActionView>::empty();
    let told = here.move_report(target, m);
    assert(here.target(m.column as int, m.row as int) == target);
    assert(none + told + none =~= told);
}

/// In an open menu a key that is no arrow, chooses no entry and does not close it does
/// nothing.
pub proof fn law_other_keys_do_nothing_in_menus(client: ClientView, c: char, m: Modifiers)
    requires
        client.rename is None,
        client.menu != Menu::Closed,
        crate::client::mnemonic(client.menu, c) is None,
    ensures
        ({
            let key = KeyEvent { code: KeyCode::Char(c), modifiers: m, press: true };
            &&& client.after_key(key) == client
            &&& client.key_actions(key).len() == 0
            &&& !client.key_quits(key)
        }),
{
}

/// Keys and the mouse are handled as they come, and other events do nothing.
pub proof fn law_events_are_handled_as_they_come(
    client: ClientView,
    key: KeyEvent,
    mouse: MouseEvent,
    now_ms: u64,
    now_secs: u64,
)
    ensures
        ({
            let typed = client.after(
                AppEvent::Terminal { input: TerminalInput::Key { key } },
                now_ms,
                now_secs,
            );
            &&& typed.client == client.after_key(key)
            &&& typed.actions == client.key_actions(key)
            &&& typed.quit == client.key_quits(key)
        }),
        client.after(
            AppEvent::Terminal { input: TerminalInput::Mouse { mouse } },
            now_ms,
            now_secs,
        ) == client.after_mouse(mouse, now_ms),
        ({
            let other = client.after(
                AppEvent::Terminal { input: TerminalInput::Other },
                now_ms,
                now_secs,
            );
            other.client == client && other.actions.len() == 0 && !other.quit
        }),
{
}

/// A press of another button than the left one on the frame or the scroll bar of a
/// window brings the window to the front, and does nothing else.
pub proof fn law_other_buttons_bring_to_the_front(
    client: ClientView,
    m: MouseEvent,
    button: MouseButton,
    id: usize,
    now: u64,
)
    requires
        client.drag is None,
        button != MouseButton::Left,
        m.kind == MouseKind::Down(button),
        ({
            let target = client.target(m.column as int, m.row as int);
            target == HitTarget::WindowTitle(id) || target == HitTarget::WindowBorder(id) || target
                == HitTarget::WindowResize(id) || target == HitTarget::WindowScrollbar(id)
        }),
    ensures
        sends_just(
            client.after_mouse(m, now).actions,
            ClientMessageView::FocusWindow { window_id: id },
        ),
        client.after_mouse(m, now).client == (ClientView {
            mouse: (m.column, m.row),
            active: Some(id),
            ..client
        }),
{
    lemma_plain_event(client, m, now);
}

/// Buttons and menus do not react to other buttons than the left one.
pub proof fn law_buttons_want_the_left_button(
    client: ClientView,
    m: MouseEvent,
    button: MouseButton,
    now: u64,
)
    requires
        client.drag is None,
        button != MouseButton::Left,
        m.kind == MouseKind::Down(button),
        ({
            let target = client.target(m.column as int, m.row as int);
            target is CloseButton || target is MinimizeButton || target is MaximizeButton || target
                is FullscreenButton || target is SoloButton || target is ResetButton || target
                is MenuLabel || target is MenuItem || target is Deskbar || target
                is DeskbarMinimizeButton
        }),
    ensures
        client.after_mouse(m, now).actions.len() == 0,
        !client.after_mouse(m, now).quit,
        client.after_mouse(m, now).client == (ClientView { mouse: (m.column, m.row), ..client }),
{
    lemma_plain_event(client, m, now);
}

/// A selection that is there already ends where the mouse is; beside the inside of its
/// window, the mouse does not change it.
pub proof fn law_selection_is_extended(
    client: ClientView,
    m: MouseEvent,
    id: usize,
    now: u64,
)
    requires
        client.drag is None,
        client.scrollbar_drag is None,
        client.pending is None,
        client.active == Some(id),
        client.selection matches Some(sel) && sel.window_id == id,
        m.kind == MouseKind::Drag(MouseButton::Left),
        lookup(client.windows, id) is Some,
        lookup(client.windows, id)->0.id == id,
        !lookup(client.windows, id)->0.mouse_reporting,
        lookup(client.windows, id)->0.x < m.column,
        lookup(client.windows, id)->0.y < m.row,
    ensures
        ({
            let win = lookup(client.windows, id)->0;
            let out = client.after_mouse(m, now);
            let sel = client.selection->0;
            let end = ((m.row - win.y - 1) as u16, (m.column - win.x - 1) as u16);
            let over = client.target(m.column as int, m.row as int) == HitTarget::WindowContent(id);
            &&& out.actions.len() == 0
            &&& out.client == (ClientView {
                mouse: (m.column, m.row),
                selection: Some(
                    if over {
                        Selection { end, ..sel }
                    } else {
                        sel
                    },
                ),
                ..client
            })
        }),
{
    lemma_plain_event(client, m, now);
}

/// A drag of a window that is not there any more is over.
pub proof fn law_drag_of_no_window_is_over(
    client: ClientView,
    m: MouseEvent,
    button: MouseButton,
    now: u64,
)
    requires
        client.drag is Some,
        !known(client.windows, client.drag->0.window_id),
        m.kind == MouseKind::Drag(button),
    ensures
        client.after_mouse(m, now).client == (ClientView {
            mouse: (m.column, m.row),
            drag: None,
            ..client
        }),
        client.after_mouse(m, now).actions.len() == 0,
{
}

/// A window that is shown under the mouse for a moment is hidden again as soon as the
/// mouse is over anything else but the title of another hidden window: over nothing,
/// over the isolated window or inside some window. Over the title of a window that is
/// not hidden any more, it stays.
pub proof fn law_shown_window_is_hidden_again(client: ClientView, m: MouseEvent, now: u64)
    requires
        m.kind == MouseKind::Moved,
        client.drag is None,
        client.solo_active,
        client.expanded is Some,
        client.target(m.column as int, m.row as int).of_window() != client.expanded,
    ensures
        ({
            let target = client.target(m.column as int, m.row as int);
            let out = client.after_mouse(m, now);
            let here = ClientView { mouse: (m.column, m.row), ..client };
            let hide = ActionView::Send {
                msg: ClientMessageView::TemporaryCollapse { window_id: client.expanded->0 },
            };
            let of_other = target is WindowTitle && target.of_window() != client.solo_origin;
            &&& !of_other ==> out.client == (ClientView { expanded: None, ..here })
                && out.actions.len() > 0 && out.actions[0] == hide
            &&& of_other && (lookup(client.windows, target.of_window()->0) is None || !lookup(
                client.windows,
                target.of_window()->0,
            )->0.minimized) ==> out.client == here && out.actions.len() == 0
        }),
{
    let target = client.target(m.column as int, m.row as int);
    let here = ClientView { mouse: (m.column, m.row), ..client };
    let hover = here.hovered(target, m.kind);
    assert(here.target(m.column as int, m.row as int) == target);
    assert(hover.client.handled(target, m, now).client == hover.client);
    let first = hover.actions + hover.client.move_report(target, m);
    assert(client.after_mouse(m, now).actions == first + hover.client.handled(
        target,
        m,
        now,
    ).actions);
}

/// While a window is renamed, keys that type, delete, accept or cancel nothing do
/// nothing, nor does a key that is let go.
pub proof fn law_other_keys_do_nothing_to_a_name(client: ClientView, key: KeyEvent)
    requires
        client.rename is Some,
        !key.press || !(key.code is Char || key.code == KeyCode::Enter || key.code == KeyCode::Esc
            || key.code == KeyCode::Backspace),
    ensures
        client.after_key(key) == client,
        client.key_actions(key).len() == 0,
        !client.key_quits(key),
{
}

/// Being told of all windows ends what was shown under the mouse for a moment, takes
/// over whether a window is isolated, and leaves the menus, the selection, the mouse and
/// all else that is the client's own.
pub proof fn law_sync_leaves_what_is_the_clients(
    client: ClientView,
    windows: Seq<WindowStateView>,
    solo: bool,
    origin: Option<usize>,
    session_id: u64,
)
    ensures
        ({
            let after = client.after_server(
                ServerMessageView::FullSync {
                    windows,
                    solo_mode_active: solo,
                    solo_origin_id: origin,
                },
            );
            &&& after == (ClientView {
                windows: after.windows,
                active: after.active,
                solo_active: solo,
                solo_origin: origin,
                expanded: None,
                ..client
            })
            &&& client.after_server(
                ServerMessageView::Welcome {
                    session_id,
                    windows,
                    solo_mode_active: solo,
                    solo_origin_id: origin,
                },
            ) == after
        }),
{
}

/// A press of any button beside everything closes an open menu.
pub proof fn law_menus_close_beside_everything(
    client: ClientView,
    m: MouseEvent,
    button: MouseButton,
    now: u64,
)
    requires
        client.drag is None,
        m.kind == MouseKind::Down(button),
        client.target(m.column as int, m.row as int) == HitTarget::Nothing,
    ensures
        client.after_mouse(m, now).client == (ClientView {
            mouse: (m.column, m.row),
            menu: Menu::Closed,
            ..client
        }),
        !client.after_mouse(m, now).quit,
        button != MouseButton::Right ==> client.after_mouse(m, now).actions.len() == 0,
{
    lemma_plain_event(client, m, now);
}

/// While the scroll bar of a window is held, dragging with another button does nothing,
/// nor does dragging when the window is gone.
pub proof fn law_held_scroll_bar_takes_the_left_button(
    client: ClientView,
    m: MouseEvent,
    button: MouseButton,
    id: usize,
    now: u64,
)
    requires
        client.drag is None,
        m.kind == MouseKind::Drag(button),
        client.scrollbar_drag == Some(id),
        button != MouseButton::Left || lookup(client.windows, id) is None,
    ensures
        client.after_mouse(m, now).client == (ClientView { mouse: (m.column, m.row), ..client }),
        client.after_mouse(m, now).actions.len() == 0,
{
    lemma_plain_event(client, m, now);
}

} // verus!
