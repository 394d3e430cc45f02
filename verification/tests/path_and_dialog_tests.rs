use effer::globals::Globals;
use effer::menu::{find_suggestion, menu_dialog, MenuAnswer, MenuDialog};
use effer::notes::{notes_in_step, update_notes_statics};
use effer::paths::{get_file_parent_path, get_file_path, shell_expand};
use effer::screen::shell_contract;

fn with_path(path: &str) -> Globals {
    let mut g = Globals::new();
    g.path = path.to_string();
    g
}

#[test]
fn the_file_path_reads_a_tilde_as_the_home_folder() {
    let home = "/home/u";
    assert_eq!(get_file_path(&with_path("~/notes.dat"), home), Some("/home/u/notes.dat".to_string()));
    assert_eq!(get_file_path(&with_path("~"), home), Some("/home/u".to_string()));
    assert_eq!(get_file_path(&with_path("/srv/notes.dat"), home), Some("/srv/notes.dat".to_string()));
    assert_eq!(get_file_path(&with_path("~other/notes.dat"), home), Some("~other/notes.dat".to_string()));
}

#[test]
fn a_shown_path_expands_back_to_the_file_path() {
    let home = "/home/u";
    let shown = shell_contract("/home/u/a/notes.dat", home);
    assert_eq!(get_file_path(&with_path(&shown), home), Some("/home/u/a/notes.dat".to_string()));
}

#[test]
fn the_parent_folder_of_the_file() {
    let home = "/home/u";
    assert_eq!(get_file_parent_path(&with_path("~/.config/effer/effer.dat"), home), Some("/home/u/.config/effer".to_string()));
    assert_eq!(get_file_parent_path(&with_path("/notes.dat"), home), Some("/".to_string()));
    assert_eq!(get_file_parent_path(&with_path("/"), home), None);
    assert_eq!(get_file_parent_path(&with_path(""), home), None);
}

#[test]
fn environment_variables_are_expanded() {
    assert_eq!(shell_expand("/plain/path"), Some("/plain/path".to_string()));
    assert_eq!(shell_expand("$EFFER_SURELY_UNSET_VARIABLE_XYZ/notes"), None);
    assert_eq!(get_file_path(&with_path("${EFFER_SURELY_UNSET_VARIABLE_XYZ}/n"), "/home/u"), None);
}

#[test]
fn answers_that_ask_open_their_dialog() {
    assert_eq!(menu_dialog(MenuAnswer::AddNote), Some(MenuDialog::AddNote(false)));
    assert_eq!(menu_dialog(MenuAnswer::AddNoteStart), Some(MenuDialog::AddNote(true)));
    assert_eq!(menu_dialog(MenuAnswer::EditNote), Some(MenuDialog::EditNote));
    assert_eq!(menu_dialog(MenuAnswer::FindNotes), Some(MenuDialog::FindNotes(false)));
    assert_eq!(menu_dialog(MenuAnswer::FindNotesSuggest), Some(MenuDialog::FindNotes(true)));
    assert_eq!(menu_dialog(MenuAnswer::Exit), Some(MenuDialog::Exit));
    assert_eq!(menu_dialog(MenuAnswer::MoveNotes), Some(MenuDialog::MoveNotes));
    assert_eq!(menu_dialog(MenuAnswer::PageNumber), None);
    assert_eq!(menu_dialog(MenuAnswer::Nothing), None);
    assert_eq!(menu_dialog(MenuAnswer::IncreasePageSize), None);
}

#[test]
fn the_previous_filter_is_suggested_when_asked_for() {
    let mut g = Globals::new();
    g.last_find = "todo".to_string();
    assert_eq!(find_suggestion(&g, true), "todo");
    assert_eq!(find_suggestion(&g, false), "");
}

#[test]
fn note_lines_in_step_with_the_text() {
    let mut g = Globals::new();
    update_notes_statics(&mut g, "header\none\ntwo".to_string());
    assert!(notes_in_step(&g));
    g.notes_length = 5;
    assert!(!notes_in_step(&g));
    g.notes_length = 2;
    g.notes_vec[1] = "changed".to_string();
    assert!(!notes_in_step(&g));
    assert!(!notes_in_step(&Globals::new()));
}
