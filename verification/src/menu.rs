//! The editor's application state, its key events and the menu bar.

use vstd::prelude::*;

verus! {

/// The editor's state that is shown in its status line.
pub struct AppState {
    pub status_message: String,
}

impl AppState {
    /// An empty status line.
    pub fn new() -> (r: Self)
        ensures
            r.status_message@ == Seq::<char>::empty(),
    {
        Self { status_message: String::new() }
    }
}

/// No modifier key held.
pub const NO_MODIFIERS: u8 = 0;

/// The shift key.
pub const SHIFT: u8 = 1;

/// The control key.
pub const CONTROL: u8 = 2;

/// The alt key.
pub const ALT: u8 = 4;

/// The key of a key event.
#[derive(PartialEq, Eq, Structural, Clone, Copy, Debug)]
pub enum KeyCode {
    Backspace,
    Enter,
    Left,
    Right,
    Up,
    Down,
    Home,
    End,
    PageUp,
    PageDown,
    Tab,
    BackTab,
    Delete,
    Insert,
    F(u8),
    Char(char),
    Null,
    Esc,
    /// A key that the editor does not handle (caps lock, media keys, ...).
    Other,
}

/// A key press: the key and the set of modifier keys held, one bit each
/// (`SHIFT`, `CONTROL`, `ALT`, and three higher bits for the super, hyper
/// and meta keys).
#[derive(PartialEq, Eq, Structural, Clone, Copy, Debug)]
pub struct KeyEvent {
    pub code: KeyCode,
    pub modifiers: u8,
}

/// Which menu of the menu bar is open.
pub struct MenuState {
    pub active_menu: Option<usize>,
}

impl MenuState {
    /// No menu open.
    pub fn new() -> (r: Self)
        ensures
            r.active_menu is None,
    {
        Self { active_menu: None }
    }
}

/// The menu that alt and the key `c` open: 0 for File, 1 for Edit, 2 for
/// Options, 3 for Help.
pub open spec fn menu_of_key(c: char) -> Option<usize> {
    if c == 'f' || c == 'F' {
        Some(0)
    } else if c == 'e' || c == 'E' {
        Some(1)
    } else if c == 'o' || c == 'O' {
        Some(2)
    } else if c == 'h' || c == 'H' {
        Some(3)
    } else {
        None
    }
}

/// The menus of the menu bar, in order.
pub open spec fn menu_names() -> Seq<Seq<char>> {
    seq!["File"@, "Edit"@, "Options"@, "Help"@]
}

/// `c` in ASCII lower case.
pub open spec fn lower_char(c: char) -> char {
    if 'A' <= c && c <= 'Z' {
        ((c as int) + 32) as char
    } else {
        c
    }
}

/// Alt and a letter open the menu whose name starts with that letter, in
/// either case, and each menu opens so; no other key opens a menu.
pub proof fn lemma_menu_opened_by_initial(modifiers: u8, key_code: KeyCode, i: int)
    ensures
        menu_opened_by(modifiers, key_code) matches Some(m) ==> {
            &&& m < menu_names().len()
            &&& modifiers == ALT
            &&& key_code is Char
            &&& lower_char(key_code->Char_0) == lower_char(menu_names()[m as int][0])
        },
        0 <= i < menu_names().len() && modifiers == ALT && key_code is Char && lower_char(key_code->Char_0)
            == lower_char(menu_names()[i][0]) ==> menu_opened_by(modifiers, key_code) == Some(i as usize),
{
    reveal_strlit("File");
    reveal_strlit("Edit");
    reveal_strlit("Options");
    reveal_strlit("Help");
}

/// The menu that a key opens: alt alone, with F, E, O or H in either case.
pub open spec fn menu_opened_by(modifiers: u8, key_code: KeyCode) -> Option<usize> {
    if modifiers == ALT {
        match key_code {
            KeyCode::Char(c) => menu_of_key(c),
            _ => None,
        }
    } else {
        None
    }
}

/// Alt with F, E, O or H (either case) opens the File, Edit, Options or
/// Help menu; Escape, with any modifiers, closes the open menu. Returns
/// whether the key was one of these; other keys leave the state as it was.
pub fn handle_menu_key(menu_state: &mut MenuState, modifiers: u8, key_code: KeyCode) -> (handled: bool)
    ensures
        handled == (menu_opened_by(modifiers, key_code) is Some || key_code == KeyCode::Esc),
        menu_opened_by(modifiers, key_code) is Some ==> final(menu_state).active_menu
            == menu_opened_by(modifiers, key_code),
        menu_opened_by(modifiers, key_code) is None && key_code == KeyCode::Esc
            ==> final(menu_state).active_menu is None,
        !handled ==> final(menu_state).active_menu == old(menu_state).active_menu,
{
    if modifiers == ALT {
        if let KeyCode::Char(c) = key_code {
            if c == 'f' || c == 'F' {
                menu_state.active_menu = Some(0);
                return true;
            } else if c == 'e' || c == 'E' {
                menu_state.active_menu = Some(1);
                return true;
            } else if c == 'o' || c == 'O' {
                menu_state.active_menu = Some(2);
                return true;
            } else if c == 'h' || c == 'H' {
                menu_state.active_menu = Some(3);
                return true;
            }
        }
    }
    if key_code == KeyCode::Esc {
        menu_state.active_menu = None;
        return true;
    }
    false
}

} // verus!
