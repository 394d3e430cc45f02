//! The state a running notepad keeps, with its getters and setters.

use std::collections::VecDeque;
use vstd::prelude::*;

verus! {

/// The program version shown in the about screen.
pub const VERSION: &'static str = "v1.11.0";

/// The default number of notes per page.
pub const DEFAULT_PAGE_SIZE: usize = 20;

/// The largest number of notes a page may hold.
pub const MAX_PAGE_SIZE: usize = 100;

/// How much the page size changes with each increase or decrease.
pub const PAGE_SIZE_DIFF: usize = 5;

/// Whether notes are separated by an empty row unless set otherwise.
pub const DEFAULT_ROW_SPACE: bool = true;

/// Whether colors are used unless set otherwise.
pub const DEFAULT_USE_COLORS: bool = true;

/// Background color of the dark theme.
pub const DARK_THEME_COLOR_1: (u8, u8, u8) = (37, 41, 51);

/// Foreground color of the dark theme.
pub const DARK_THEME_COLOR_2: (u8, u8, u8) = (202, 207, 218);

/// Accent color of the dark theme.
pub const DARK_THEME_COLOR_3: (u8, u8, u8) = (136, 192, 209);

/// Background color of the light theme.
pub const LIGHT_THEME_COLOR_1: (u8, u8, u8) = (240, 240, 240);

/// Foreground color of the light theme.
pub const LIGHT_THEME_COLOR_2: (u8, u8, u8) = (20, 20, 20);

/// Accent color of the light theme.
pub const LIGHT_THEME_COLOR_3: (u8, u8, u8) = (12, 130, 89);

/// Background color of the purple theme.
pub const PURPLE_THEME_COLOR_1: (u8, u8, u8) = (42, 37, 65);

/// Foreground color of the purple theme.
pub const PURPLE_THEME_COLOR_2: (u8, u8, u8) = (143, 55, 249);

/// Accent color of the purple theme.
pub const PURPLE_THEME_COLOR_3: (u8, u8, u8) = (193, 47, 105);

/// The whole state of a running notepad.
///
/// `notes` is the decrypted file text; its first line is the settings header
/// and every other line is a note. `notes_vec` holds those lines and
/// `notes_length` the number of notes (lines after the header).
pub struct Globals {
    pub path: String,
    pub password: String,
    pub notes: String,
    pub source: String,
    pub last_find: String,
    pub mode: String,
    pub last_path: String,
    pub prev_notes: String,
    pub menus: Vec<String>,
    pub notes_vec: Vec<String>,
    pub found: VecDeque<(usize, String)>,
    pub notes_length: usize,
    pub page: usize,
    pub current_menu: usize,
    pub last_edit: usize,
    pub found_length: usize,
    pub derivation: usize,
    pub started: bool,
    pub altscreen: bool,
    pub arg_page_size: String,
    pub arg_row_space: String,
    pub arg_color_1: String,
    pub arg_color_2: String,
    pub arg_color_3: String,
    pub arg_use_colors: String,
    pub page_size: usize,
    pub row_space: bool,
    pub color_1: (u8, u8, u8),
    pub color_2: (u8, u8, u8),
    pub color_3: (u8, u8, u8),
    pub prev_color_1: (u8, u8, u8),
    pub prev_color_2: (u8, u8, u8),
    pub prev_color_3: (u8, u8, u8),
    pub use_colors: bool,
}

/// The state of a notepad that has not read any file yet.
pub open spec fn initial_globals(g: Globals) -> bool {
    &&& g.path@.len() == 0
    &&& g.password@.len() == 0
    &&& g.notes@.len() == 0
    &&& g.source@.len() == 0
    &&& g.last_find@.len() == 0
    &&& g.mode@.len() == 0
    &&& g.last_path@.len() == 0
    &&& g.prev_notes@.len() == 0
    &&& g.menus@.len() == 0
    &&& g.notes_vec@.len() == 0
    &&& g.found@.len() == 0
    &&& g.notes_length == 0
    &&& g.page == 1
    &&& g.current_menu == 0
    &&& g.last_edit == 0
    &&& g.found_length == 0
    &&& g.derivation == 0
    &&& !g.started
    &&& !g.altscreen
    &&& g.arg_page_size@.len() == 0
    &&& g.arg_row_space@.len() == 0
    &&& g.arg_color_1@.len() == 0
    &&& g.arg_color_2@.len() == 0
    &&& g.arg_color_3@.len() == 0
    &&& g.arg_use_colors@.len() == 0
    &&& g.page_size == DEFAULT_PAGE_SIZE
    &&& g.row_space
    &&& g.color_1 == (50u8, 50u8, 50u8)
    &&& g.color_2 == (50u8, 50u8, 50u8)
    &&& g.color_3 == (50u8, 50u8, 50u8)
    &&& g.prev_color_1 == (50u8, 50u8, 50u8)
    &&& g.prev_color_2 == (50u8, 50u8, 50u8)
    &&& g.prev_color_3 == (50u8, 50u8, 50u8)
    &&& g.use_colors
}

impl Globals {
    /// Makes the state a notepad starts with.
    pub fn new() -> (g: Globals)
        ensures
            initial_globals(g),
    {
        Globals {
            path: String::new(),
            password: String::new(),
            notes: String::new(),
            source: String::new(),
            last_find: String::new(),
            mode: String::new(),
            last_path: String::new(),
            prev_notes: String::new(),
            menus: Vec::new(),
            notes_vec: Vec::new(),
            found: VecDeque::new(),
            notes_length: 0,
            page: 1,
            current_menu: 0,
            last_edit: 0,
            found_length: 0,
            derivation: 0,
            started: false,
            altscreen: false,
            arg_page_size: String::new(),
            arg_row_space: String::new(),
            arg_color_1: String::new(),
            arg_color_2: String::new(),
            arg_color_3: String::new(),
            arg_use_colors: String::new(),
            page_size: DEFAULT_PAGE_SIZE,
            row_space: true,
            color_1: (50, 50, 50),
            color_2: (50, 50, 50),
            color_3: (50, 50, 50),
            prev_color_1: (50, 50, 50),
            prev_color_2: (50, 50, 50),
            prev_color_3: (50, 50, 50),
            use_colors: true,
        }
    }
}

/// Copies a list of strings.
pub fn clone_strings(v: &Vec<String>) -> (r: Vec<String>)
    ensures
        r@ == v@,
{
    let mut r: Vec<String> = Vec::new();
    let mut i: usize = 0;
    while i < v.len()
        invariant
            i <= v.len(),
            r@ == v@.subrange(0, i as int),
        decreases v.len() - i,
    {
        r.push(v[i].clone());
        i = i + 1;
    }
    r
}

/// Returns the menu at index `i`.
pub fn g_get_menus_item(g: &Globals, i: usize) -> (r: String)
    requires
        i < g.menus@.len(),
    ensures
        r == g.menus@[i as int],
{
    g.menus[i].clone()
}

/// Returns how many menus there are.
pub fn g_get_menus_length(g: &Globals) -> (r: usize)
    ensures
        r == g.menus@.len(),
{
    g.menus.len()
}

/// Sets the menus.
pub fn g_set_menus(g: &mut Globals, v: Vec<String>)
    ensures
        *final(g) == (Globals { menus: v, ..*old(g) }),
{
    g.menus = v;
}

/// Takes up to `amount` found notes from the front of the found list.
pub fn g_get_found_next(g: &mut Globals, amount: usize) -> (r: Vec<(usize, String)>)
    ensures
        ({
            let k = if old(g).found@.len() < amount { old(g).found@.len() as int } else { amount as int };
            &&& r@ == old(g).found@.take(k)
            &&& *final(g) == (Globals { found: final(g).found, ..*old(g) })
            &&& final(g).found@ == old(g).found@.skip(k)
        }),
{
    let ghost old_found = g.found@;
    let mut found: VecDeque<(usize, String)> = VecDeque::new();
    std::mem::swap(&mut found, &mut g.found);
    let upper = if found.len() < amount { found.len() } else { amount };
    let mut taken: Vec<(usize, String)> = Vec::new();
    while taken.len() < upper
        invariant
            upper <= old_found.len(),
            taken@.len() <= upper,
            taken@ + found@ == old_found,
        decreases upper - taken@.len(),
    {
        if let Some(item) = found.pop_front() {
            taken.push(item);
        }
        assert(taken@ + found@ =~= old_found);
    }
    assert(taken@ =~= old_found.take(upper as int));
    assert(found@ =~= old_found.skip(upper as int));
    g.found = found;
    taken
}

/// Returns how many found notes are still waiting to be shown.
pub fn g_get_found_remaining(g: &Globals) -> (r: usize)
    ensures
        r == g.found@.len(),
{
    g.found.len()
}

/// Sets the found notes and records how many there are.
pub fn g_set_found(g: &mut Globals, v: Vec<(usize, String)>)
    ensures
        *final(g) == (Globals { found: final(g).found, found_length: v@.len() as usize, ..*old(g) }),
        final(g).found@ == v@,
{
    let mut found: VecDeque<(usize, String)> = VecDeque::new();
    let mut i: usize = 0;
    while i < v.len()
        invariant
            i <= v@.len(),
            found@ == v@.take(i as int),
        decreases v@.len() - i,
    {
        found.push_back((v[i].0, v[i].1.clone()));
        assert(found@ =~= v@.take(i + 1));
        i = i + 1;
    }
    assert(found@ =~= v@);
    g.found_length = v.len();
    g.found = found;
}

/// Returns how many notes the last search found.
pub fn g_get_found_length(g: &Globals) -> (r: usize)
    ensures
        r == g.found_length,
{
    g.found_length
}

/// Returns a copy of the lines of the notes text.
pub fn g_get_notes_vec(g: &Globals) -> (r: Vec<String>)
    ensures
        r@ == g.notes_vec@,
{
    clone_strings(&g.notes_vec)
}

/// Returns line `i` of the notes text.
pub fn g_get_notes_vec_item(g: &Globals, i: usize) -> (r: String)
    requires
        i < g.notes_vec@.len(),
    ensures
        r == g.notes_vec@[i as int],
{
    g.notes_vec[i].clone()
}

/// Returns lines `a` through `b` (both included) of the notes text.
pub fn g_get_notes_vec_range(g: &Globals, a: usize, b: usize) -> (r: Vec<String>)
    requires
        a <= b + 1,
        b < g.notes_vec@.len(),
    ensures
        r@ == g.notes_vec@.subrange(a as int, b + 1),
{
    let mut r: Vec<String> = Vec::new();
    let mut i: usize = a;
    while i <= b
        invariant
            a <= i <= b + 1,
            b < g.notes_vec.len(),
            r@ == g.notes_vec@.subrange(a as int, i as int),
        decreases b + 1 - i,
    {
        r.push(g.notes_vec[i].clone());
        i = i + 1;
    }
    r
}

/// Sets the lines of the notes text.
pub fn g_set_notes_vec(g: &mut Globals, v: Vec<String>)
    ensures
        *final(g) == (Globals { notes_vec: v, ..*old(g) }),
{
    g.notes_vec = v;
}

/// Returns the notes value.
pub fn g_get_notes(g: &Globals) -> (r: String)
    ensures
        r@ == g.notes@,
{
    g.notes.clone()
}

/// Sets the notes value.
pub fn g_set_notes(g: &mut Globals, s: String)
    ensures
        *final(g) == (Globals { notes: s, ..*old(g) }),
{
    g.notes = s;
}

/// Returns the path value.
pub fn g_get_path(g: &Globals) -> (r: String)
    ensures
        r@ == g.path@,
{
    g.path.clone()
}

/// Sets the path value.
pub fn g_set_path(g: &mut Globals, s: String)
    ensures
        *final(g) == (Globals { path: s, ..*old(g) }),
{
    g.path = s;
}

/// Returns the password value.
pub fn g_get_password(g: &Globals) -> (r: String)
    ensures
        r@ == g.password@,
{
    g.password.clone()
}

/// Sets the password value.
pub fn g_set_password(g: &mut Globals, s: String)
    ensures
        *final(g) == (Globals { password: s, ..*old(g) }),
{
    g.password = s;
}

/// Returns the source value.
pub fn g_get_source(g: &Globals) -> (r: String)
    ensures
        r@ == g.source@,
{
    g.source.clone()
}

/// Sets the source value.
pub fn g_set_source(g: &mut Globals, s: String)
    ensures
        *final(g) == (Globals { source: s, ..*old(g) }),
{
    g.source = s;
}

/// Returns the last find value.
pub fn g_get_last_find(g: &Globals) -> (r: String)
    ensures
        r@ == g.last_find@,
{
    g.last_find.clone()
}

/// Sets the last find value.
pub fn g_set_last_find(g: &mut Globals, s: String)
    ensures
        *final(g) == (Globals { last_find: s, ..*old(g) }),
{
    g.last_find = s;
}

/// Returns the page size argument value.
pub fn g_get_arg_page_size(g: &Globals) -> (r: String)
    ensures
        r@ == g.arg_page_size@,
{
    g.arg_page_size.clone()
}

/// Sets the page size argument value.
pub fn g_set_arg_page_size(g: &mut Globals, s: String)
    ensures
        *final(g) == (Globals { arg_page_size: s, ..*old(g) }),
{
    g.arg_page_size = s;
}

/// Returns the row space argument value.
pub fn g_get_arg_row_space(g: &Globals) -> (r: String)
    ensures
        r@ == g.arg_row_space@,
{
    g.arg_row_space.clone()
}

/// Sets the row space argument value.
pub fn g_set_arg_row_space(g: &mut Globals, s: String)
    ensures
        *final(g) == (Globals { arg_row_space: s, ..*old(g) }),
{
    g.arg_row_space = s;
}

/// Returns the color 1 argument value.
pub fn g_get_arg_color_1(g: &Globals) -> (r: String)
    ensures
        r@ == g.arg_color_1@,
{
    g.arg_color_1.clone()
}

/// Sets the color 1 argument value.
pub fn g_set_arg_color_1(g: &mut Globals, s: String)
    ensures
        *final(g) == (Globals { arg_color_1: s, ..*old(g) }),
{
    g.arg_color_1 = s;
}

/// Returns the color 2 argument value.
pub fn g_get_arg_color_2(g: &Globals) -> (r: String)
    ensures
        r@ == g.arg_color_2@,
{
    g.arg_color_2.clone()
}

/// Sets the color 2 argument value.
pub fn g_set_arg_color_2(g: &mut Globals, s: String)
    ensures
        *final(g) == (Globals { arg_color_2: s, ..*old(g) }),
{
    g.arg_color_2 = s;
}

/// Returns the color 3 argument value.
pub fn g_get_arg_color_3(g: &Globals) -> (r: String)
    ensures
        r@ == g.arg_color_3@,
{
    g.arg_color_3.clone()
}

/// Sets the color 3 argument value.
pub fn g_set_arg_color_3(g: &mut Globals, s: String)
    ensures
        *final(g) == (Globals { arg_color_3: s, ..*old(g) }),
{
    g.arg_color_3 = s;
}

/// Returns the use colors argument value.
pub fn g_get_arg_use_colors(g: &Globals) -> (r: String)
    ensures
        r@ == g.arg_use_colors@,
{
    g.arg_use_colors.clone()
}

/// Sets the use colors argument value.
pub fn g_set_arg_use_colors(g: &mut Globals, s: String)
    ensures
        *final(g) == (Globals { arg_use_colors: s, ..*old(g) }),
{
    g.arg_use_colors = s;
}

/// Returns the mode value.
pub fn g_get_mode(g: &Globals) -> (r: String)
    ensures
        r@ == g.mode@,
{
    g.mode.clone()
}

/// Sets the mode value.
pub fn g_set_mode(g: &mut Globals, s: String)
    ensures
        *final(g) == (Globals { mode: s, ..*old(g) }),
{
    g.mode = s;
}

/// Returns the last path value.
pub fn g_get_last_path(g: &Globals) -> (r: String)
    ensures
        r@ == g.last_path@,
{
    g.last_path.clone()
}

/// Sets the last path value.
pub fn g_set_last_path(g: &mut Globals, s: String)
    ensures
        *final(g) == (Globals { last_path: s, ..*old(g) }),
{
    g.last_path = s;
}

/// Returns the previous notes value.
pub fn g_get_prev_notes(g: &Globals) -> (r: String)
    ensures
        r@ == g.prev_notes@,
{
    g.prev_notes.clone()
}

/// Sets the previous notes value.
pub fn g_set_prev_notes(g: &mut Globals, s: String)
    ensures
        *final(g) == (Globals { prev_notes: s, ..*old(g) }),
{
    g.prev_notes = s;
}

/// Returns the page value.
pub fn g_get_page(g: &Globals) -> (r: usize)
    ensures
        r == g.page,
{
    g.page
}

/// Sets the page value.
pub fn g_set_page(g: &mut Globals, n: usize)
    ensures
        *final(g) == (Globals { page: n, ..*old(g) }),
{
    g.page = n;
}

/// Returns the current menu value.
pub fn g_get_current_menu(g: &Globals) -> (r: usize)
    ensures
        r == g.current_menu,
{
    g.current_menu
}

/// Sets the current menu value.
pub fn g_set_current_menu(g: &mut Globals, n: usize)
    ensures
        *final(g) == (Globals { current_menu: n, ..*old(g) }),
{
    g.current_menu = n;
}

/// Returns the last edit value.
pub fn g_get_last_edit(g: &Globals) -> (r: usize)
    ensures
        r == g.last_edit,
{
    g.last_edit
}

/// Sets the last edit value.
pub fn g_set_last_edit(g: &mut Globals, n: usize)
    ensures
        *final(g) == (Globals { last_edit: n, ..*old(g) }),
{
    g.last_edit = n;
}

/// Returns the notes length value.
pub fn g_get_notes_length(g: &Globals) -> (r: usize)
    ensures
        r == g.notes_length,
{
    g.notes_length
}

/// Sets the notes length value.
pub fn g_set_notes_length(g: &mut Globals, n: usize)
    ensures
        *final(g) == (Globals { notes_length: n, ..*old(g) }),
{
    g.notes_length = n;
}

/// Returns the page size value.
pub fn g_get_page_size(g: &Globals) -> (r: usize)
    ensures
        r == g.page_size,
{
    g.page_size
}

/// Sets the page size value.
pub fn g_set_page_size(g: &mut Globals, n: usize)
    ensures
        *final(g) == (Globals { page_size: n, ..*old(g) }),
{
    g.page_size = n;
}

/// Returns the key derivation value.
pub fn g_get_derivation(g: &Globals) -> (r: usize)
    ensures
        r == g.derivation,
{
    g.derivation
}

/// Sets the key derivation value.
pub fn g_set_derivation(g: &mut Globals, n: usize)
    ensures
        *final(g) == (Globals { derivation: n, ..*old(g) }),
{
    g.derivation = n;
}

/// Returns the started flag.
pub fn g_get_started(g: &Globals) -> (r: bool)
    ensures
        r == g.started,
{
    g.started
}

/// Sets the started flag.
pub fn g_set_started(g: &mut Globals, b: bool)
    ensures
        *final(g) == (Globals { started: b, ..*old(g) }),
{
    g.started = b;
}

/// Returns the row space flag.
pub fn g_get_row_space(g: &Globals) -> (r: bool)
    ensures
        r == g.row_space,
{
    g.row_space
}

/// Sets the row space flag.
pub fn g_set_row_space(g: &mut Globals, b: bool)
    ensures
        *final(g) == (Globals { row_space: b, ..*old(g) }),
{
    g.row_space = b;
}

/// Returns the use colors flag.
pub fn g_get_use_colors(g: &Globals) -> (r: bool)
    ensures
        r == g.use_colors,
{
    g.use_colors
}

/// Sets the use colors flag.
pub fn g_set_use_colors(g: &mut Globals, b: bool)
    ensures
        *final(g) == (Globals { use_colors: b, ..*old(g) }),
{
    g.use_colors = b;
}

/// Returns the alternate screen flag.
pub fn g_get_altscreen(g: &Globals) -> (r: bool)
    ensures
        r == g.altscreen,
{
    g.altscreen
}

/// Sets the alternate screen flag.
pub fn g_set_altscreen(g: &mut Globals, b: bool)
    ensures
        *final(g) == (Globals { altscreen: b, ..*old(g) }),
{
    g.altscreen = b;
}

/// Returns color 1.
pub fn g_get_color_1(g: &Globals) -> (r: (u8, u8, u8))
    ensures
        r == g.color_1,
{
    g.color_1
}

/// Sets color 1, keeping the color it replaces as the previous color 1.
pub fn g_set_color_1(g: &mut Globals, t: (u8, u8, u8))
    ensures
        *final(g) == (Globals { color_1: t, prev_color_1: old(g).color_1, ..*old(g) }),
{
    g.prev_color_1 = g.color_1;
    g.color_1 = t;
}

/// Returns the color that color 1 had before its last change.
pub fn g_get_prev_color_1(g: &Globals) -> (r: (u8, u8, u8))
    ensures
        r == g.prev_color_1,
{
    g.prev_color_1
}

/// Returns color 2.
pub fn g_get_color_2(g: &Globals) -> (r: (u8, u8, u8))
    ensures
        r == g.color_2,
{
    g.color_2
}

/// Sets color 2, keeping the color it replaces as the previous color 2.
pub fn g_set_color_2(g: &mut Globals, t: (u8, u8, u8))
    ensures
        *final(g) == (Globals { color_2: t, prev_color_2: old(g).color_2, ..*old(g) }),
{
    g.prev_color_2 = g.color_2;
    g.color_2 = t;
}

/// Returns the color that color 2 had before its last change.
pub fn g_get_prev_color_2(g: &Globals) -> (r: (u8, u8, u8))
    ensures
        r == g.prev_color_2,
{
    g.prev_color_2
}

/// Returns color 3.
pub fn g_get_color_3(g: &Globals) -> (r: (u8, u8, u8))
    ensures
        r == g.color_3,
{
    g.color_3
}

/// Sets color 3, keeping the color it replaces as the previous color 3.
pub fn g_set_color_3(g: &mut Globals, t: (u8, u8, u8))
    ensures
        *final(g) == (Globals { color_3: t, prev_color_3: old(g).color_3, ..*old(g) }),
{
    g.prev_color_3 = g.color_3;
    g.color_3 = t;
}

/// Returns the color that color 3 had before its last change.
pub fn g_get_prev_color_3(g: &Globals) -> (r: (u8, u8, u8))
    ensures
        r == g.prev_color_3,
{
    g.prev_color_3
}
} // verus!
