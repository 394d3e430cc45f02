//! The menus under the notes and the keys that drive them.

use vstd::prelude::*;

use crate::colors::{get_color, spec_color};
use crate::globals::Globals;
use crate::modes::{about_text, mode_toggled, saver_text, show_about, show_screensaver};
use crate::notes::{
    all_notes_toggled, change_page_size, change_row_space, cycle_left, cycle_right, goto_first_page, goto_last_page,
    max_page, mode_acted, mode_action, notes_consistent, page_size_changed, refresh_page, row_space_changed,
    show_all_notes, show_page, Screen, Step,
};
use crate::text::views;

verus! {

/// What a key pressed at the menu asks for.
#[derive(Debug, PartialEq, Eq, Structural, Clone, Copy)]
pub enum MenuAnswer {
    Nothing,
    AddNote,
    EditNote,
    EditLastNote,
    FindNotes,
    SwapNotes,
    DeleteNotes,
    ResetFile,
    ChangePassword,
    CycleLeft,
    CycleRight,
    FirstPage,
    LastPage,
    RefreshPage,
    PageNumber,
    ChangeMenu,
    ShowAllNotes,
    ShowAbout,
    GotoPage,
    Exit,
    IncreasePageSize,
    DecreasePageSize,
    ShowStats,
    ScreenSaver,
    FetchSource,
    OpenFromPath,
    Destroy,
    ChangeRowSpace,
    MoveNotes,
    ChangeColors,
    FindNotesSuggest,
    ModeAction,
    AddNoteStart,
    Undo,
}

/// A key press or mouse event at the menu.
#[derive(Debug, PartialEq, Eq, Structural, Clone, Copy)]
pub enum KeyInput {
    Left,
    Right,
    Up,
    Down,
    PageUp,
    PageDown,
    Home,
    End,
    Esc,
    Backspace,
    Char(char),
    Ctrl(char),
    WheelUp,
    WheelDown,
    Other,
}

/// The answer for a character key.
pub open spec fn char_answer(c: char) -> (MenuAnswer, usize) {
    if '0' <= c && c <= '9' {
        let n = ((c as int) - ('0' as int)) as usize;
        if n > 0 {
            (MenuAnswer::PageNumber, n)
        } else {
            (MenuAnswer::Nothing, 0)
        }
    } else {
        let a = if c == 'a' {
            MenuAnswer::AddNote
        } else if c == 'A' {
            MenuAnswer::AddNoteStart
        } else if c == 'e' {
            MenuAnswer::EditNote
        } else if c == 'f' {
            MenuAnswer::FindNotes
        } else if c == 'm' {
            MenuAnswer::MoveNotes
        } else if c == 'd' {
            MenuAnswer::DeleteNotes
        } else if c == 'F' {
            MenuAnswer::FindNotesSuggest
        } else if c == 'S' {
            MenuAnswer::SwapNotes
        } else if c == 'G' {
            MenuAnswer::GotoPage
        } else if c == 'R' {
            MenuAnswer::ResetFile
        } else if c == 'P' {
            MenuAnswer::ChangePassword
        } else if c == 'H' {
            MenuAnswer::ShowAllNotes
        } else if c == 'T' {
            MenuAnswer::ShowStats
        } else if c == '?' {
            MenuAnswer::ShowAbout
        } else if c == 'O' {
            MenuAnswer::OpenFromPath
        } else if c == 'N' {
            MenuAnswer::FetchSource
        } else if c == 'Q' {
            MenuAnswer::Exit
        } else if c == '+' {
            MenuAnswer::IncreasePageSize
        } else if c == '-' {
            MenuAnswer::DecreasePageSize
        } else if c == ':' {
            MenuAnswer::ScreenSaver
        } else if c == 'U' {
            MenuAnswer::Undo
        } else if c == 'X' {
            MenuAnswer::Destroy
        } else if c == '\n' {
            MenuAnswer::ModeAction
        } else if c == '^' {
            MenuAnswer::ChangeRowSpace
        } else if c == '$' {
            MenuAnswer::ChangeColors
        } else if c == ' ' {
            MenuAnswer::ChangeMenu
        } else {
            MenuAnswer::Nothing
        };
        (a, 0)
    }
}

/// The answer for a key or mouse event: arrows and page keys change
/// pages, digits 1 to 9 go to that page (the page comes with the answer),
/// letters and signs name actions, Ctrl+C exits, the wheel changes pages.
pub open spec fn spec_menu_answer(k: KeyInput) -> (MenuAnswer, usize) {
    match k {
        KeyInput::Left => (MenuAnswer::CycleLeft, 0),
        KeyInput::Right => (MenuAnswer::CycleRight, 0),
        KeyInput::Up => (MenuAnswer::FirstPage, 0),
        KeyInput::Down => (MenuAnswer::LastPage, 0),
        KeyInput::PageUp => (MenuAnswer::CycleLeft, 0),
        KeyInput::PageDown => (MenuAnswer::CycleRight, 0),
        KeyInput::Home => (MenuAnswer::FirstPage, 0),
        KeyInput::End => (MenuAnswer::LastPage, 0),
        KeyInput::Esc => (MenuAnswer::RefreshPage, 0),
        KeyInput::Backspace => (MenuAnswer::EditLastNote, 0),
        KeyInput::Char(c) => char_answer(c),
        KeyInput::Ctrl(c) => if c == 'c' {
            (MenuAnswer::Exit, 0)
        } else {
            (MenuAnswer::Nothing, 0)
        },
        KeyInput::WheelUp => (MenuAnswer::CycleLeft, 0),
        KeyInput::WheelDown => (MenuAnswer::CycleRight, 0),
        KeyInput::Other => (MenuAnswer::Nothing, 0),
    }
}

/// Interprets a key pressed at the menu (see `spec_menu_answer`).
pub fn menu_input(k: KeyInput) -> (r: (MenuAnswer, usize))
    ensures
        r == spec_menu_answer(k),
{
    match k {
        KeyInput::Left => (MenuAnswer::CycleLeft, 0),
        KeyInput::Right => (MenuAnswer::CycleRight, 0),
        KeyInput::Up => (MenuAnswer::FirstPage, 0),
        KeyInput::Down => (MenuAnswer::LastPage, 0),
        KeyInput::PageUp => (MenuAnswer::CycleLeft, 0),
        KeyInput::PageDown => (MenuAnswer::CycleRight, 0),
        KeyInput::Home => (MenuAnswer::FirstPage, 0),
        KeyInput::End => (MenuAnswer::LastPage, 0),
        KeyInput::Esc => (MenuAnswer::RefreshPage, 0),
        KeyInput::Backspace => (MenuAnswer::EditLastNote, 0),
        KeyInput::Char(c) => {
            if '0' <= c && c <= '9' {
                let n = (c as u32 - '0' as u32) as usize;
                if n > 0 {
                    (MenuAnswer::PageNumber, n)
                } else {
                    (MenuAnswer::Nothing, 0)
                }
            } else {
                let a = if c == 'a' {
                    MenuAnswer::AddNote
                } else if c == 'A' {
                    MenuAnswer::AddNoteStart
                } else if c == 'e' {
                    MenuAnswer::EditNote
                } else if c == 'f' {
                    MenuAnswer::FindNotes
                } else if c == 'm' {
                    MenuAnswer::MoveNotes
                } else if c == 'd' {
                    MenuAnswer::DeleteNotes
                } else if c == 'F' {
                    MenuAnswer::FindNotesSuggest
                } else if c == 'S' {
                    MenuAnswer::SwapNotes
                } else if c == 'G' {
                    MenuAnswer::GotoPage
                } else if c == 'R' {
                    MenuAnswer::ResetFile
                } else if c == 'P' {
                    MenuAnswer::ChangePassword
                } else if c == 'H' {
                    MenuAnswer::ShowAllNotes
                } else if c == 'T' {
                    MenuAnswer::ShowStats
                } else if c == '?' {
                    MenuAnswer::ShowAbout
                } else if c == 'O' {
                    MenuAnswer::OpenFromPath
                } else if c == 'N' {
                    MenuAnswer::FetchSource
                } else if c == 'Q' {
                    MenuAnswer::Exit
                } else if c == '+' {
                    MenuAnswer::IncreasePageSize
                } else if c == '-' {
                    MenuAnswer::DecreasePageSize
                } else if c == ':' {
                    MenuAnswer::ScreenSaver
                } else if c == 'U' {
                    MenuAnswer::Undo
                } else if c == 'X' {
                    MenuAnswer::Destroy
                } else if c == '\n' {
                    MenuAnswer::ModeAction
                } else if c == '^' {
                    MenuAnswer::ChangeRowSpace
                } else if c == '$' {
                    MenuAnswer::ChangeColors
                } else if c == ' ' {
                    MenuAnswer::ChangeMenu
                } else {
                    MenuAnswer::Nothing
                };
                (a, 0)
            }
        },
        KeyInput::Ctrl(c) => {
            if c == 'c' {
                (MenuAnswer::Exit, 0)
            } else {
                (MenuAnswer::Nothing, 0)
            }
        },
        KeyInput::WheelUp => (MenuAnswer::CycleLeft, 0),
        KeyInput::WheelDown => (MenuAnswer::CycleRight, 0),
        KeyInput::Other => (MenuAnswer::Nothing, 0),
    }
}

/// A menu item: `(key)` in the accent color, then the label; a space
/// between them, a separator after, a line break before, where asked.
pub open spec fn menu_item_text(g: Globals, key: Seq<char>, label: Seq<char>, spacing: bool, separator: bool, newline: bool) -> Seq<char> {
    (if newline { "\n"@ } else { Seq::empty() }) + spec_color(g, 3) + "("@ + key + ")"@ + spec_color(g, 2) + (if spacing {
        " "@
    } else {
        Seq::empty()
    }) + label + (if separator { " | "@ } else { Seq::empty() })
}

/// Makes a menu item (see `menu_item_text`).
pub fn menu_item(g: &Globals, key: &str, label: &str, spacing: bool, separator: bool, newline: bool) -> (r: String)
    ensures
        r@ == menu_item_text(*g, key@, label@, spacing, separator, newline),
{
    let mut s = if newline { "\n".to_string() } else { String::new() };
    s.append(get_color(g, 3).as_str());
    s.append("(");
    s.append(key);
    s.append(")");
    s.append(get_color(g, 2).as_str());
    if spacing {
        s.append(" ");
    }
    s.append(label);
    if separator {
        s.append(" | ");
    }
    proof {
        let a = if newline { "\n"@ } else { Seq::<char>::empty() };
        let b = if spacing { " "@ } else { Seq::<char>::empty() };
        let c = if separator { " | "@ } else { Seq::<char>::empty() };
        assert(s@ =~= a + spec_color(*g, 3) + "("@ + key@ + ")"@ + spec_color(*g, 2) + b + label@ + c);
    }
    s
}

/// The text of a menu made of items, each given as key, label, spacing,
/// separator and line break.
pub open spec fn menu_text(g: Globals, items: Seq<(&'static str, &'static str, bool, bool, bool)>) -> Seq<char>
    decreases items.len(),
{
    if items.len() == 0 {
        Seq::empty()
    } else {
        let it = items.last();
        menu_text(g, items.drop_last()) + menu_item_text(g, it.0@, it.1@, it.2, it.3, it.4)
    }
}

/// Joins the items of a menu.
pub fn make_menu(g: &Globals, items: &Vec<(&'static str, &'static str, bool, bool, bool)>) -> (r: String)
    ensures
        r@ == menu_text(*g, items@),
{
    let mut s = String::new();
    let mut i: usize = 0;
    while i < items.len()
        invariant
            i <= items@.len(),
            s@ == menu_text(*g, items@.subrange(0, i as int)),
        decreases items@.len() - i,
    {
        let it = items[i];
        let piece = menu_item(g, it.0, it.1, it.2, it.3, it.4);
        s.append(piece.as_str());
        assert(items@.subrange(0, i + 1).drop_last() =~= items@.subrange(0, i as int));
        i = i + 1;
    }
    assert(items@.subrange(0, i as int) =~= items@);
    s
}

/// The items of the first menu.
pub open spec fn first_menu() -> Seq<(&'static str, &'static str, bool, bool, bool)> {
    seq![
        ("a", "dd", false, true, true),
        ("e", "dit", false, true, false),
        ("f", "ind", false, true, false),
        ("m", "ove", false, true, false),
        ("d", "elete", false, false, false),
        ("Arrows", "Change Pages", true, true, true),
        ("Backspace", "Edit Last", true, false, false),
        ("H", "Show All", true, true, true),
        ("?", "About", true, true, false),
        ("Q", "Exit", true, true, false),
        ("Space", ">", true, false, false),
    ]
}

/// The items of the second menu.
pub open spec fn second_menu() -> Seq<(&'static str, &'static str, bool, bool, bool)> {
    seq![
        ("+/-", "Change Page Size", true, true, true),
        ("G", "Goto", true, false, false),
        ("R", "Reset File", true, true, true),
        ("P", "Change Password", true, false, false),
        ("$", "Change Colors", true, true, true),
        ("U", "Undo Last Edit", true, false, false),
    ]
}

/// The items of the third menu.
pub open spec fn third_menu() -> Seq<(&'static str, &'static str, bool, bool, bool)> {
    seq![
        ("^", "Change Row Spacing", true, true, true),
        ("S", "Swap", true, false, false),
        ("O", "Open Encrypted File", true, true, true),
        ("T", "Stats", true, false, false),
        ("U", "Add From Source File", true, true, true),
        ("X", "Destroy", true, false, false),
    ]
}

/// Makes the three menus, in the current colors, and keeps them.
pub fn create_menus(g: &mut Globals)
    ensures
        *final(g) == (Globals { menus: final(g).menus, ..*old(g) }),
        views(final(g).menus@) == seq![
            menu_text(*old(g), first_menu()),
            menu_text(*old(g), second_menu()),
            menu_text(*old(g), third_menu()),
        ],
{
    let first = vec![
        ("a", "dd", false, true, true),
        ("e", "dit", false, true, false),
        ("f", "ind", false, true, false),
        ("m", "ove", false, true, false),
        ("d", "elete", false, false, false),
        ("Arrows", "Change Pages", true, true, true),
        ("Backspace", "Edit Last", true, false, false),
        ("H", "Show All", true, true, true),
        ("?", "About", true, true, false),
        ("Q", "Exit", true, true, false),
        ("Space", ">", true, false, false),
    ];
    let second = vec![
        ("+/-", "Change Page Size", true, true, true),
        ("G", "Goto", true, false, false),
        ("R", "Reset File", true, true, true),
        ("P", "Change Password", true, false, false),
        ("$", "Change Colors", true, true, true),
        ("U", "Undo Last Edit", true, false, false),
    ];
    let third = vec![
        ("^", "Change Row Spacing", true, true, true),
        ("S", "Swap", true, false, false),
        ("O", "Open Encrypted File", true, true, true),
        ("T", "Stats", true, false, false),
        ("U", "Add From Source File", true, true, true),
        ("X", "Destroy", true, false, false),
    ];
    assert(first@ =~= first_menu());
    assert(second@ =~= second_menu());
    assert(third@ =~= third_menu());
    let m1 = make_menu(g, &first);
    let m2 = make_menu(g, &second);
    let m3 = make_menu(g, &third);
    let mut menus: Vec<String> = Vec::new();
    menus.push(m1);
    menus.push(m2);
    menus.push(m3);
    g.menus = menus;
    assert(views(g.menus@) =~= seq![
        menu_text(*old(g), first_menu()),
        menu_text(*old(g), second_menu()),
        menu_text(*old(g), third_menu()),
    ]);
}

/// What going to the next menu does: the next one, the first after the
/// last, and the current page shown again.
pub open spec fn menu_cycled(old: Globals, new: Globals, r: Screen) -> bool {
    &&& new == (Globals {
        current_menu: if old.current_menu >= old.menus@.len() - 1 { 0 } else { (old.current_menu + 1) as usize },
        ..old
    })
    &&& (r matches Screen::Page(p) && p == old.page)
}


/// Goes to the next menu, back to the first after the last, and shows the
/// current page again.
pub fn cycle_menu(g: &mut Globals) -> (r: Screen)
    requires
        old(g).menus@.len() >= 1,
    ensures
        menu_cycled(*old(g), *final(g), r),
{
    let mlength = g.menus.len();
    let menu = g.current_menu;
    if menu >= mlength - 1 {
        g.current_menu = 0;
    } else {
        g.current_menu = menu + 1;
    }
    Screen::Page(g.page)
}


/// Whether an answer is acted on without asking the user anything or
/// reading the file.
pub open spec fn answers_directly(a: MenuAnswer) -> bool {
    ||| a == MenuAnswer::CycleLeft
    ||| a == MenuAnswer::CycleRight
    ||| a == MenuAnswer::FirstPage
    ||| a == MenuAnswer::LastPage
    ||| a == MenuAnswer::RefreshPage
    ||| a == MenuAnswer::PageNumber
    ||| a == MenuAnswer::ChangeMenu
    ||| a == MenuAnswer::ShowAllNotes
    ||| a == MenuAnswer::ShowAbout
    ||| a == MenuAnswer::ScreenSaver
    ||| a == MenuAnswer::ModeAction
    ||| a == MenuAnswer::ChangeRowSpace
    ||| a == MenuAnswer::IncreasePageSize
    ||| a == MenuAnswer::DecreasePageSize
    ||| a == MenuAnswer::Nothing
}

/// What acting on an answer that asks nothing does: the pages before and
/// after (none past the ends), the first and the last page, the current
/// page, page `n` (at least 1), the next menu, all notes, the about and
/// screen saver screens, the mode's action, and the row spacing and page
/// size changes (saved, the screen left as it is); nothing for `Nothing`.
pub open spec fn acted(old: Globals, new: Globals, ans: (MenuAnswer, usize), r: Step) -> bool {
    let unchanged = new == old && r.save is None;
    if ans.0 == MenuAnswer::CycleLeft {
        unchanged && (if old.page <= 1 { r.screen is Stay } else { r.screen == Screen::Page((old.page - 1) as usize) })
    } else if ans.0 == MenuAnswer::CycleRight {
        unchanged && (if old.page == max_page(old) {
            r.screen is Stay
        } else {
            r.screen == Screen::Page((old.page + 1) as usize)
        })
    } else if ans.0 == MenuAnswer::FirstPage {
        unchanged && r.screen == Screen::Page(1)
    } else if ans.0 == MenuAnswer::LastPage {
        unchanged && r.screen == Screen::Page(max_page(old) as usize)
    } else if ans.0 == MenuAnswer::RefreshPage {
        unchanged && r.screen == Screen::Page(old.page)
    } else if ans.0 == MenuAnswer::PageNumber {
        unchanged && r.screen == Screen::Page(if ans.1 < 1 { 1 } else { ans.1 })
    } else if ans.0 == MenuAnswer::ChangeMenu {
        r.save is None && menu_cycled(old, new, r.screen)
    } else if ans.0 == MenuAnswer::ShowAllNotes {
        r.save is None && all_notes_toggled(old, new, r.screen)
    } else if ans.0 == MenuAnswer::ShowAbout {
        r.save is None && mode_toggled(old, new, "about"@, about_text(old), r.screen)
    } else if ans.0 == MenuAnswer::ScreenSaver {
        r.save is None && mode_toggled(old, new, "screen_saver"@, saver_text(), r.screen)
    } else if ans.0 == MenuAnswer::ModeAction {
        r.save is None && mode_acted(old, new, r.screen)
    } else if ans.0 == MenuAnswer::ChangeRowSpace {
        (r.save matches Some(res) && row_space_changed(old, new, res)) && r.screen is Stay
    } else if ans.0 == MenuAnswer::IncreasePageSize {
        page_size_changed(old, new, true, r.save) && r.screen is Stay
    } else if ans.0 == MenuAnswer::DecreasePageSize {
        page_size_changed(old, new, false, r.save) && r.screen is Stay
    } else {
        unchanged && r.screen is Stay
    }
}

/// The dialog that an answer of the menu opens when it asks the user, or
/// reads or writes a file, before it acts.
#[derive(Debug, PartialEq, Eq, Structural, Clone, Copy)]
pub enum MenuDialog {
    /// Ask for a note and add it, at the start where the flag is set.
    AddNote(bool),
    /// Ask for a note number (the last edited one suggested), then its text.
    EditNote,
    /// Ask for the new text of the last note.
    EditLastNote,
    /// Ask for a filter, the previous one suggested where the flag is set.
    FindNotes(bool),
    /// Ask for two note numbers to swap.
    SwapNotes,
    /// Ask which notes to delete, then confirm.
    DeleteNotes,
    /// Ask whether to remake the file or reset the settings.
    ResetFile,
    /// Ask for a new password or key derivation.
    ChangePassword,
    /// Ask for a page or a note to go to.
    GotoPage,
    /// Read the file's size and show the stats.
    ShowStats,
    /// Ask for another notes file and switch to it.
    OpenFromPath,
    /// Ask for a plain text file to add notes from.
    FetchSource,
    /// Ask whether to delete the notes file.
    Destroy,
    /// Ask for new colors.
    ChangeColors,
    /// Ask which notes to move where.
    MoveNotes,
    /// Confirm and go back to the notes before the last edit.
    Undo,
    /// Ask whether to leave the program.
    Exit,
}

/// The dialog each answer that does not act directly opens.
pub open spec fn dialog_of(a: MenuAnswer) -> Option<MenuDialog> {
    match a {
        MenuAnswer::AddNote => Some(MenuDialog::AddNote(false)),
        MenuAnswer::AddNoteStart => Some(MenuDialog::AddNote(true)),
        MenuAnswer::EditNote => Some(MenuDialog::EditNote),
        MenuAnswer::EditLastNote => Some(MenuDialog::EditLastNote),
        MenuAnswer::FindNotes => Some(MenuDialog::FindNotes(false)),
        MenuAnswer::FindNotesSuggest => Some(MenuDialog::FindNotes(true)),
        MenuAnswer::SwapNotes => Some(MenuDialog::SwapNotes),
        MenuAnswer::DeleteNotes => Some(MenuDialog::DeleteNotes),
        MenuAnswer::ResetFile => Some(MenuDialog::ResetFile),
        MenuAnswer::ChangePassword => Some(MenuDialog::ChangePassword),
        MenuAnswer::GotoPage => Some(MenuDialog::GotoPage),
        MenuAnswer::ShowStats => Some(MenuDialog::ShowStats),
        MenuAnswer::OpenFromPath => Some(MenuDialog::OpenFromPath),
        MenuAnswer::FetchSource => Some(MenuDialog::FetchSource),
        MenuAnswer::Destroy => Some(MenuDialog::Destroy),
        MenuAnswer::ChangeColors => Some(MenuDialog::ChangeColors),
        MenuAnswer::MoveNotes => Some(MenuDialog::MoveNotes),
        MenuAnswer::Undo => Some(MenuDialog::Undo),
        MenuAnswer::Exit => Some(MenuDialog::Exit),
        _ => None,
    }
}

/// Tells which dialog an answer of the menu opens (see `dialog_of`):
/// `None` exactly for the answers `menu_action` acts on directly.
pub fn menu_dialog(a: MenuAnswer) -> (r: Option<MenuDialog>)
    ensures
        r == dialog_of(a),
        r is None <==> answers_directly(a),
{
    match a {
        MenuAnswer::AddNote => Some(MenuDialog::AddNote(false)),
        MenuAnswer::AddNoteStart => Some(MenuDialog::AddNote(true)),
        MenuAnswer::EditNote => Some(MenuDialog::EditNote),
        MenuAnswer::EditLastNote => Some(MenuDialog::EditLastNote),
        MenuAnswer::FindNotes => Some(MenuDialog::FindNotes(false)),
        MenuAnswer::FindNotesSuggest => Some(MenuDialog::FindNotes(true)),
        MenuAnswer::SwapNotes => Some(MenuDialog::SwapNotes),
        MenuAnswer::DeleteNotes => Some(MenuDialog::DeleteNotes),
        MenuAnswer::ResetFile => Some(MenuDialog::ResetFile),
        MenuAnswer::ChangePassword => Some(MenuDialog::ChangePassword),
        MenuAnswer::GotoPage => Some(MenuDialog::GotoPage),
        MenuAnswer::ShowStats => Some(MenuDialog::ShowStats),
        MenuAnswer::OpenFromPath => Some(MenuDialog::OpenFromPath),
        MenuAnswer::FetchSource => Some(MenuDialog::FetchSource),
        MenuAnswer::Destroy => Some(MenuDialog::Destroy),
        MenuAnswer::ChangeColors => Some(MenuDialog::ChangeColors),
        MenuAnswer::MoveNotes => Some(MenuDialog::MoveNotes),
        MenuAnswer::Undo => Some(MenuDialog::Undo),
        MenuAnswer::Exit => Some(MenuDialog::Exit),
        _ => None,
    }
}

/// The filter suggested when asking for one: the previous filter where it
/// is asked for, nothing otherwise.
pub fn find_suggestion(g: &Globals, previous: bool) -> (r: String)
    ensures
        r@ == (if previous { g.last_find@ } else { Seq::<char>::empty() }),
{
    if previous {
        g.last_find.clone()
    } else {
        String::new()
    }
}

/// Acts on an answer of the menu that asks the user nothing (see
/// `answers_directly` and `acted`); `None`, with nothing changed, for the
/// answers that ask or read the file first.
pub fn menu_action(g: &mut Globals, ans: (MenuAnswer, usize)) -> (r: Option<Step>)
    requires
        notes_consistent(*old(g)),
        old(g).page_size > 0,
        old(g).page < usize::MAX,
        old(g).menus@.len() >= 1,
        old(g).found@.len() <= old(g).found_length,
    ensures
        !answers_directly(ans.0) ==> r is None && *final(g) == *old(g),
        answers_directly(ans.0) ==> (r matches Some(step) && acted(*old(g), *final(g), ans, step)),
{
    let (answer, n) = ans;
    let (save, screen) = match answer {
        MenuAnswer::CycleLeft => {
            let s = match cycle_left(g) {
                Some(p) => show_page(p),
                None => Screen::Stay,
            };
            (None, s)
        },
        MenuAnswer::CycleRight => {
            let s = match cycle_right(g) {
                Some(p) => show_page(p),
                None => Screen::Stay,
            };
            (None, s)
        },
        MenuAnswer::FirstPage => (None, goto_first_page()),
        MenuAnswer::LastPage => (None, goto_last_page(g)),
        MenuAnswer::RefreshPage => (None, refresh_page(g)),
        MenuAnswer::PageNumber => (None, show_page(if n < 1 { 1 } else { n })),
        MenuAnswer::ChangeMenu => (None, cycle_menu(g)),
        MenuAnswer::ShowAllNotes => (None, show_all_notes(g)),
        MenuAnswer::ShowAbout => (None, show_about(g)),
        MenuAnswer::ScreenSaver => (None, show_screensaver(g)),
        MenuAnswer::ModeAction => (None, mode_action(g)),
        MenuAnswer::ChangeRowSpace => (Some(change_row_space(g)), Screen::Stay),
        MenuAnswer::IncreasePageSize => (change_page_size(g, true), Screen::Stay),
        MenuAnswer::DecreasePageSize => (change_page_size(g, false), Screen::Stay),
        MenuAnswer::Nothing => (None, Screen::Stay),
        _ => {
            return None;
        },
    };
    Some(Step { save, screen })
}

} // verus!
