//! Opening, creating and switching notes files, and adding notes from a
//! plain text file. The functions take what was read from the disk and
//! what the user answered, and decide; the reading, writing and asking are
//! left to the caller.

use vstd::prelude::*;

use crate::encryption::{encrypt_text, seal_error, seals, CryptoError};
use crate::file::saved;
use crate::globals::{
    Globals, DARK_THEME_COLOR_1, DARK_THEME_COLOR_2, DARK_THEME_COLOR_3, DEFAULT_PAGE_SIZE, DEFAULT_ROW_SPACE, DEFAULT_USE_COLORS,
};
use crate::menu::{create_menus, first_menu, menu_text, second_menu, third_menu};
use crate::notes::{goto_last_page, max_page, notes_consistent, show_message, update_notes_statics, Screen, Step};
use crate::settings::{get_settings, header_text, reset_settings, settings_of, settings_update, update_header};
use crate::structs::FilePathCheckResult;
use crate::text::{spec_join, str_eq, views};

verus! {

/// Where the notes file is kept unless another path is given: under the
/// home directory, as `Path::join` puts it (no second `/` after a home that
/// ends with one).
pub open spec fn default_file_path(home: Seq<char>) -> Seq<char> {
    if home.len() == 0 || home.last() == '/' {
        home + ".config/effer/effer.dat"@
    } else {
        home + "/.config/effer/effer.dat"@
    }
}

/// The default path of the notes file for a home directory (see
/// `default_file_path`).
pub fn get_default_file_path(home: &str) -> (r: String)
    ensures
        r@ == default_file_path(home@),
{
    let mut r = home.to_string();
    let n = home.unicode_len();
    if n == 0 || home.get_char(n - 1) == '/' {
        r.append(".config/effer/effer.dat");
    } else {
        r.append("/.config/effer/effer.dat");
    }
    r
}

/// What follows a look at the notes file's path at start-up.
#[derive(Debug, PartialEq, Eq, Structural, Clone, Copy)]
pub enum PathCheckAction {
    /// The file is there: go on.
    Proceed,
    /// There is no file: tell so and offer to make it.
    OfferCreate,
    /// Something that is not a file is there: tell so and stop.
    Stop,
}

/// Decides what follows a look at the notes file's path at start-up.
pub fn handle_file_path_check(result: FilePathCheckResult) -> (r: PathCheckAction)
    ensures
        result == FilePathCheckResult::Exists ==> r == PathCheckAction::Proceed,
        result == FilePathCheckResult::DoesNotExist ==> r == PathCheckAction::OfferCreate,
        result == FilePathCheckResult::NotAFile ==> r == PathCheckAction::Stop,
{
    match result {
        FilePathCheckResult::Exists => PathCheckAction::Proceed,
        FilePathCheckResult::DoesNotExist => PathCheckAction::OfferCreate,
        FilePathCheckResult::NotAFile => PathCheckAction::Stop,
    }
}

/// The first content of a new notes file: a header line that the settings
/// will rewrite.
pub open spec fn new_file_text() -> Seq<char> {
    "Dummy Space"@
}

/// The bytes of a new notes file, sealed with the state's key derivation
/// and the password just set (`password`, as `get_password` gave it); an
/// empty password gives up (`None`).
pub fn create_file(g: &Globals, password: &str) -> (r: Option<Result<Vec<u8>, CryptoError>>)
    ensures
        password@.len() == 0 ==> r is None,
        password@.len() > 0 ==> (r matches Some(res) && match res {
            Ok(b) => seals(*g, b@, new_file_text()),
            Err(e) => seal_error(*g, e),
        }),
{
    if password.is_empty() {
        return None;
    }
    Some(encrypt_text(g, "Dummy Space"))
}

/// How reading a source file went: its text becomes the source waiting to
/// be added; a file that could not be read clears it and is told on the
/// screen once the program runs, and stops it before (`Err(None)`).
pub open spec fn source_loaded(
    old: Globals,
    new: Globals,
    content: Option<String>,
    r: Result<(), Option<Screen>>,
) -> bool {
    match content {
        Some(t) => new == (Globals { source: t, ..old }) && r is Ok,
        None => if old.started {
            &&& new == (Globals { source: new.source, ..old })
            &&& new.source@.len() == 0
            &&& r matches Err(Some(Screen::Notes(v, m)))
            &&& v@.len() == 0
            &&& m@ == "< Invalid Source Path >"@
        } else {
            new == old && r == Err::<(), Option<Screen>>(None)
        },
    }
}

/// Takes the text of a source file (`None`: it could not be read) as the
/// source waiting to be added (see `source_loaded`).
pub fn get_source_content(g: &mut Globals, content: Option<String>) -> (r: Result<(), Option<Screen>>)
    ensures
        source_loaded(*old(g), *final(g), content, r),
{
    match content {
        Some(text) => {
            g.source = text;
            Ok(())
        },
        None => {
            if g.started {
                g.source = String::new();
                Err(Some(show_message("< Invalid Source Path >")))
            } else {
                Err(None)
            }
        },
    }
}

/// Takes a source file chosen from the menu: its path is remembered for the
/// next question and its text (`None`: it could not be read) waits to be
/// added (see `source_loaded`).
pub fn fetch_source(g: &mut Globals, path: String, content: Option<String>) -> (r: Result<(), Option<Screen>>)
    ensures
        source_loaded(Globals { last_path: path, ..*old(g) }, *final(g), content, r),
{
    g.last_path = path;
    get_source_content(g, content)
}

/// What follows the choice of another notes file to open.
pub enum OpenPlan {
    /// Open it.
    Open,
    /// There is no file: tell so and offer to make it.
    OfferCreate,
    /// Show this instead.
    Show(Screen),
}

/// Decides what to do with another notes file to open, after a look at its
/// path; the path is remembered for the next question.
pub fn open_from_path(g: &mut Globals, path: String, check: FilePathCheckResult) -> (r: OpenPlan)
    ensures
        *final(g) == (Globals { last_path: path, ..*old(g) }),
        check == FilePathCheckResult::Exists ==> r is Open,
        check == FilePathCheckResult::DoesNotExist ==> r is OfferCreate,
        check == FilePathCheckResult::NotAFile ==> (r matches OpenPlan::Show(Screen::Notes(v, m)) && v@.len() == 0
            && m@ == "< Path Is Not A File >"@),
{
    g.last_path = path;
    match check {
        FilePathCheckResult::Exists => OpenPlan::Open,
        FilePathCheckResult::DoesNotExist => OpenPlan::OfferCreate,
        FilePathCheckResult::NotAFile => OpenPlan::Show(show_message("< Path Is Not A File >")),
    }
}

/// `new` is `old` switched to the file at `pth` with no password known,
/// and `prev` holds the previous password and path.
pub open spec fn path_opened(old: Globals, new: Globals, pth: String, prev: (String, String)) -> bool {
    &&& new == (Globals { password: new.password, path: pth, ..old })
    &&& new.password@.len() == 0
    &&& prev == (old.password, old.path)
}

/// Switches to another notes file: its path is taken and the password is
/// forgotten. Returns the previous password and path, to go back to them
/// if the file cannot be made or opened.
pub fn do_open_path(g: &mut Globals, pth: String) -> (r: (String, String))
    ensures
        path_opened(*old(g), *final(g), pth, r),
{
    let old_password = g.password.clone();
    let old_path = g.path.clone();
    g.password = String::new();
    g.path = pth;
    (old_password, old_path)
}

/// Why switching to another notes file failed.
#[derive(Debug, PartialEq, Eq, Structural, Clone, Copy)]
pub enum OpenFailure {
    /// The new file could not be made.
    Create,
    /// The file could not be opened.
    Decrypt,
}

/// Goes back to the previous password and path after switching to another
/// notes file failed, and tells why.
pub fn restore_path(g: &mut Globals, prev: (String, String), failure: OpenFailure) -> (r: Screen)
    ensures
        *final(g) == (Globals { password: prev.0, path: prev.1, ..*old(g) }),
        r matches Screen::Notes(v, m) && v@.len() == 0 && m@ == (if failure == OpenFailure::Create {
            "< Can't Create File >"@
        } else {
            "< Can't Decrypt File >"@
        }),
{
    let (password, path) = prev;
    g.password = password;
    g.path = path;
    match failure {
        OpenFailure::Create => show_message("< Can't Create File >"),
        OpenFailure::Decrypt => show_message("< Can't Decrypt File >"),
    }
}

/// The state after a new notes text was taken by `reset_state`: `mid` is
/// `old` with the text taken and nothing to undo; from it the settings were
/// read out of the header (and saved where asked, `r`), the menus were made
/// again and no note is the last edited.
pub open spec fn reset_from(
    old: Globals,
    mid: Globals,
    text: Seq<char>,
    new: Globals,
    r: Option<Result<Vec<u8>, CryptoError>>,
) -> bool {
    let s = Globals { menus: mid.menus, last_edit: mid.last_edit, ..new };
    &&& mid == (Globals {
        notes: mid.notes,
        notes_vec: mid.notes_vec,
        notes_length: mid.notes_length,
        prev_notes: mid.prev_notes,
        ..old
    })
    &&& mid.notes@ == text
    &&& mid.prev_notes@.len() == 0
    &&& notes_consistent(mid)
    &&& settings_update(mid) ==> (r matches Some(res) && saved(
        settings_of(mid),
        s,
        res,
        spec_join(views(mid.notes_vec@).update(0, header_text(settings_of(mid)))),
    ))
    &&& !settings_update(mid) ==> r is None && s == settings_of(mid)
    &&& views(new.menus@) == seq![menu_text(s, first_menu()), menu_text(s, second_menu()), menu_text(s, third_menu())]
    &&& new.last_edit == 0
}

/// Takes the notes text of a file that was just opened: nothing to undo,
/// the settings read from its header, the menus made again, no note last
/// edited (see `reset_from`). Returns the save the settings asked for, if
/// any.
pub fn reset_state(g: &mut Globals, notes: String) -> (r: Option<Result<Vec<u8>, CryptoError>>)
    requires
        notes@.len() > 0,
    ensures
        exists|mid: Globals| #[trigger] reset_from(*old(g), mid, notes@, *final(g), r),
{
    let ghost text = notes@;
    g.prev_notes = String::new();
    update_notes_statics(g, notes);
    let ghost mid = *g;
    let r = get_settings(g);
    let ghost s = *g;
    create_menus(g);
    g.last_edit = 0;
    assert(s == (Globals { menus: mid.menus, last_edit: mid.last_edit, ..*g }));
    assert(reset_from(*old(g), mid, text, *g, r));
    r
}

/// What the reset menu offers.
#[derive(Debug, PartialEq, Eq, Structural, Clone, Copy)]
pub enum ResetChoice {
    /// Make the file again, with no notes and a new password.
    RemakeFile,
    /// Put the settings back to their defaults.
    ResetSettings,
    Nothing,
}

/// The reset menu: `f` makes the file again, `s` puts the settings back to
/// their defaults; either is to be confirmed.
pub fn reset_file(choice: &str) -> (r: ResetChoice)
    ensures
        choice@ == "f"@ ==> r == ResetChoice::RemakeFile,
        choice@ == "s"@ ==> r == ResetChoice::ResetSettings,
        choice@ != "f"@ && choice@ != "s"@ ==> r == ResetChoice::Nothing,
{
    proof {
        reveal_strlit("f");
        reveal_strlit("s");
        assert("f"@[0] != "s"@[0]);
    }
    if str_eq(choice, "f") {
        ResetChoice::RemakeFile
    } else if str_eq(choice, "s") {
        ResetChoice::ResetSettings
    } else {
        ResetChoice::Nothing
    }
}

/// The settings put back to their defaults, colors turned on as they are
/// by default.
pub open spec fn default_settings(g: Globals) -> Globals {
    Globals {
        page_size: DEFAULT_PAGE_SIZE,
        row_space: DEFAULT_ROW_SPACE,
        color_1: DARK_THEME_COLOR_1,
        color_2: DARK_THEME_COLOR_2,
        color_3: DARK_THEME_COLOR_3,
        prev_color_1: g.color_1,
        prev_color_2: g.color_2,
        prev_color_3: g.color_3,
        use_colors: DEFAULT_USE_COLORS,
        ..g
    }
}

/// Puts the settings back to their defaults, writes them in the header and
/// saves, and makes the menus again.
pub fn reset_file_settings(g: &mut Globals) -> (r: Result<Vec<u8>, CryptoError>)
    requires
        old(g).notes_vec@.len() >= 1,
    ensures
        ({
            let d = default_settings(*old(g));
            let s = Globals { menus: old(g).menus, ..*final(g) };
            &&& saved(d, s, r, spec_join(views(old(g).notes_vec@).update(0, header_text(d))))
            &&& views(final(g).menus@) == seq![
                menu_text(s, first_menu()),
                menu_text(s, second_menu()),
                menu_text(s, third_menu()),
            ]
        }),
{
    reset_settings(g);
    g.use_colors = DEFAULT_USE_COLORS;
    let r = update_header(g);
    let ghost s = *g;
    create_menus(g);
    assert(s == (Globals { menus: old(g).menus, ..*g }));
    r
}


/// What follows an attempt to open the notes file.
pub enum OpenOutcome {
    /// The notes text.
    Text(String),
    /// A password is needed: ask for it and try again.
    AskPassword,
    /// The file cannot be opened: an empty text while the program runs.
    Unreadable,
    /// The file cannot be opened at start-up: tell so and stop.
    Fatal,
}

/// Decides what follows an attempt to open the notes file.
pub fn open_outcome(g: &Globals, r: Result<String, CryptoError>) -> (o: OpenOutcome)
    ensures
        r matches Ok(s) ==> o == OpenOutcome::Text(s),
        r == Err::<String, CryptoError>(CryptoError::NeedPassword) ==> o is AskPassword,
        (r matches Err(e) && e != CryptoError::NeedPassword) ==> (if g.started { o is Unreadable } else { o is Fatal }),
{
    match r {
        Ok(s) => OpenOutcome::Text(s),
        Err(CryptoError::NeedPassword) => OpenOutcome::AskPassword,
        Err(_) => if g.started {
            OpenOutcome::Unreadable
        } else {
            OpenOutcome::Fatal
        },
    }
}


/// What finishing a switch to another notes file did: where the file could
/// not be made (`created` false) or opened (`notes` empty), the previous
/// password and path are back and the reason is shown; otherwise the notes
/// of the new file were taken (see `reset_from`) and its last page is
/// shown.
pub open spec fn open_finished(
    old: Globals,
    new: Globals,
    prev: (String, String),
    created: bool,
    notes: Seq<char>,
    r: Step,
) -> bool {
    if !created || notes.len() == 0 {
        &&& new == (Globals { password: prev.0, path: prev.1, ..old })
        &&& r.save is None
        &&& (r.screen matches Screen::Notes(v, m) && v@.len() == 0 && m@ == (if !created {
            "< Can't Create File >"@
        } else {
            "< Can't Decrypt File >"@
        }))
    } else {
        &&& exists|mid: Globals| #[trigger] reset_from(old, mid, notes, new, r.save)
        &&& new.page_size > 0
        &&& r.screen == Screen::Page(max_page(new) as usize)
    }
}

/// Finishes a switch to another notes file (see `open_finished`):
/// `created` tells whether a file that had to be made was made, and
/// `notes` is the text the file opened to (empty where it did not open).
pub fn finish_open_path(g: &mut Globals, prev: (String, String), created: bool, notes: String) -> (r: Step)
    ensures
        open_finished(*old(g), *final(g), prev, created, notes@, r),
{
    if !created {
        return Step { save: None, screen: restore_path(g, prev, OpenFailure::Create) };
    }
    if notes.as_str().is_empty() {
        return Step { save: None, screen: restore_path(g, prev, OpenFailure::Decrypt) };
    }
    let save = reset_state(g, notes);
    proof {
        let mid = choose|mid: Globals| #[trigger] reset_from(*old(g), mid, notes@, *g, save);
        lemma_settings_page_size(mid);
    }
    let screen = goto_last_page(g);
    Step { save, screen }
}

/// The page size the settings give is never 0.
pub proof fn lemma_settings_page_size(g: Globals)
    ensures
        settings_of(g).page_size > 0,
{
}

/// A switch to another notes file that could not be made or opened leaves
/// the state as it was before the switch: the previous file stays open.
pub proof fn lemma_failed_open_keeps_file(
    g0: Globals,
    pth: String,
    prev: (String, String),
    g1: Globals,
    created: bool,
    notes: Seq<char>,
    g2: Globals,
    r: Step,
)
    requires
        path_opened(g0, g1, pth, prev),
        open_finished(g1, g2, prev, created, notes, r),
        !created || notes.len() == 0,
    ensures
        g2 == g0,
{
}

} // verus!
