use effer::arguments::{apply_given_settings, apply_settings, choose_path, join_spaced, print_mode, print_text, PrintMode};
use effer::colors::{change_colors, clean_color_text, color_prompt, get_color, read_color};
use effer::globals::{Globals, DARK_THEME_COLOR_1, DARK_THEME_COLOR_2, DARK_THEME_COLOR_3, DEFAULT_PAGE_SIZE};
use effer::input::{ask_bool, ask_bool_prompt, ask_string};
use effer::menu::{create_menus, cycle_menu, menu_action, menu_input, KeyInput, MenuAnswer};
use effer::modes::{count_letters, make_tip, show_about, show_screensaver, show_stats};
use effer::notes::{update_notes_statics, Screen};
use effer::screen::{calculate_padding, format_note, make_spaces, show_menu, show_notes, show_page_indicator, shell_contract};
use effer::security::{
    change_key_derivation, change_password, change_security, get_key_derivation, get_password, password_question,
    PasswordQuestion, SecurityChoice,
};
use effer::session::{
    create_file, do_open_path, fetch_source, get_default_file_path, get_source_content, handle_file_path_check,
    finish_open_path, open_from_path, open_outcome, reset_file, reset_file_settings, reset_state, restore_path, OpenFailure,
    OpenOutcome, OpenPlan, PathCheckAction, ResetChoice,
};
use effer::settings::{
    bool_to_string, format_header, get_settings, parse_bool, parse_color_part, parse_color_setting, parse_page_size,
    reset_settings, update_header,
};
use effer::structs::{FilePathCheckResult, Settings};
use effer::encryption::{decrypt_bytes, CryptoError};

const HEADER: &str = "page_size=10 row_space=true color_1=1,2,3 color_2=4,5,6 color_3=7,8,9 use_colors=false";

fn state(text: &str) -> Globals {
    let mut g = Globals::new();
    g.use_colors = false;
    g.page_size = 10;
    update_notes_statics(&mut g, text.to_string());
    g
}

fn numbered(n: usize) -> Globals {
    let mut text = HEADER.to_string();
    for i in 1..=n {
        text.push_str(&format!("\nnote {}", i));
    }
    state(&text)
}

#[test]
fn header_is_written_from_the_settings() {
    let mut g = numbered(1);
    g.page_size = 10;
    g.row_space = true;
    g.color_1 = (1, 2, 3);
    g.color_2 = (4, 5, 6);
    g.color_3 = (7, 8, 9);
    g.use_colors = false;
    assert_eq!(format_header(&g), HEADER);
    assert_eq!(bool_to_string(true), "true");
    assert_eq!(bool_to_string(false), "false");
}

#[test]
fn settings_are_read_from_the_header() {
    let mut g = state("page_size=15 row_space=false color_1=11,12,13 color_2=4,5,6 color_3=255,0,9 use_colors=false\nnote");
    let r = get_settings(&mut g);
    assert!(r.is_none());
    assert_eq!(g.page_size, 15);
    assert!(!g.row_space);
    assert_eq!(g.color_1, (11, 12, 13));
    assert_eq!(g.color_2, (4, 5, 6));
    assert_eq!(g.color_3, (255, 0, 9));
    assert!(!g.use_colors);
    assert_eq!(g.prev_color_1, (50, 50, 50));
}

#[test]
fn missing_settings_take_the_defaults() {
    let mut g = state("Dummy Space");
    let r = get_settings(&mut g);
    assert!(r.is_none());
    assert_eq!(g.page_size, DEFAULT_PAGE_SIZE);
    assert!(g.row_space);
    assert_eq!(g.color_1, DARK_THEME_COLOR_1);
    assert_eq!(g.color_2, DARK_THEME_COLOR_2);
    assert_eq!(g.color_3, DARK_THEME_COLOR_3);
    assert!(g.use_colors);
}

#[test]
fn an_argument_overrides_and_rewrites_the_header() {
    let mut g = state(&format!("{}\nnote", HEADER));
    g.arg_page_size = "20".to_string();
    let r = get_settings(&mut g);
    assert!(matches!(r, Some(Ok(_))));
    assert_eq!(g.page_size, 20);
    assert!(g.notes_vec[0].starts_with("page_size=20 row_space=true color_1=1,2,3 "));
    let mut two = state(&format!("{}\nnote", HEADER));
    two.arg_row_space = "false".to_string();
    two.arg_use_colors = "false".to_string();
    assert!(matches!(get_settings(&mut two), Some(Ok(_))));
    assert!(!two.row_space);
    assert!(two.notes_vec[0].contains(" row_space=false "));
    let mut same = state(&format!("{}\nnote", HEADER));
    same.arg_page_size = "10".to_string();
    assert!(get_settings(&mut same).is_none());
}

#[test]
fn header_settings_read_back_the_same() {
    let mut g = numbered(2);
    g.page_size = 35;
    g.row_space = false;
    g.color_1 = (0, 128, 255);
    g.color_2 = (9, 99, 199);
    g.color_3 = (200, 1, 0);
    g.use_colors = true;
    assert!(update_header(&mut g).is_ok());
    let mut h = state(&g.notes);
    assert!(get_settings(&mut h).is_none());
    assert_eq!(h.page_size, 35);
    assert!(!h.row_space);
    assert_eq!(h.color_1, (0, 128, 255));
    assert_eq!(h.color_2, (9, 99, 199));
    assert_eq!(h.color_3, (200, 1, 0));
    assert!(h.use_colors);
}

#[test]
fn setting_values_are_parsed() {
    assert_eq!(parse_page_size("25"), 25);
    assert_eq!(parse_page_size("0"), DEFAULT_PAGE_SIZE);
    assert_eq!(parse_page_size("500"), 100);
    assert_eq!(parse_page_size("x"), DEFAULT_PAGE_SIZE);
    assert!(parse_bool("true", false));
    assert!(!parse_bool("false", true));
    assert!(parse_bool("maybe", true));
    assert_eq!(parse_color_part(" 7 "), 7);
    assert_eq!(parse_color_part("300"), 0);
    assert_eq!(parse_color_setting("1,2,3", (9, 9, 9)), (1, 2, 3));
    assert_eq!(parse_color_setting("1,2", (9, 9, 9)), (9, 9, 9));
    assert_eq!(parse_color_setting("1,x,3", (9, 9, 9)), (1, 0, 3));
}

#[test]
fn settings_go_back_to_the_defaults() {
    let mut g = numbered(1);
    g.page_size = 40;
    g.color_1 = (1, 1, 1);
    reset_settings(&mut g);
    assert_eq!(g.page_size, DEFAULT_PAGE_SIZE);
    assert_eq!(g.color_1, DARK_THEME_COLOR_1);
    assert_eq!(g.prev_color_1, (1, 1, 1));
    let mut h = numbered(1);
    h.page_size = 40;
    h.use_colors = false;
    assert!(reset_file_settings(&mut h).is_ok());
    assert_eq!(h.page_size, DEFAULT_PAGE_SIZE);
    assert_eq!(h.notes_vec[0], "page_size=20 row_space=true color_1=37,41,51 color_2=202,207,218 color_3=136,192,209 use_colors=true");
    assert!(h.use_colors);
    assert_eq!(h.menus.len(), 3);
}

#[test]
fn color_codes() {
    let mut g = Globals::new();
    g.color_1 = (1, 2, 3);
    g.color_2 = (4, 5, 6);
    g.color_3 = (7, 8, 9);
    assert_eq!(get_color(&g, 1), "\x1b[48;2;1;2;3m");
    assert_eq!(get_color(&g, 2), "\x1b[38;2;4;5;6m");
    assert_eq!(get_color(&g, 3), "\x1b[38;2;7;8;9m");
    assert_eq!(get_color(&g, 4), "\x1b[48;2;10;10;10m");
    assert_eq!(get_color(&g, 5), "\x1b[38;2;210;210;210m");
    assert_eq!(get_color(&g, 6), "");
    g.use_colors = false;
    assert_eq!(get_color(&g, 1), "");
}

#[test]
fn color_questions() {
    let mut g = Globals::new();
    g.color_1 = (1, 2, 3);
    g.color_2 = (4, 5, 6);
    g.color_3 = (7, 8, 9);
    assert_eq!(color_prompt(&g, "1"), Some(("BG Color".to_string(), "1,2,3".to_string(), true)));
    assert_eq!(color_prompt(&g, "3"), Some(("Other Color".to_string(), "7,8,9".to_string(), true)));
    assert_eq!(
        color_prompt(&g, "4"),
        Some(("All Colors".to_string(), "1,2,3 - 4,5,6 - 7,8,9".to_string(), false))
    );
    assert_eq!(color_prompt(&g, "u"), Some(("Choice".to_string(), String::new(), true)));
    assert_eq!(color_prompt(&g, "d"), None);
}

#[test]
fn themes_swaps_and_undo_of_colors() {
    let mut g = numbered(1);
    g.use_colors = true;
    g.color_1 = (1, 2, 3);
    g.color_2 = (4, 5, 6);
    g.color_3 = (7, 8, 9);
    let step = change_colors(&mut g, false, "d", "").unwrap();
    assert!(matches!(step.save, Some(Ok(_))));
    assert!(matches!(step.screen, Screen::Page(1)));
    assert_eq!((g.color_1, g.color_2, g.color_3), (DARK_THEME_COLOR_1, DARK_THEME_COLOR_2, DARK_THEME_COLOR_3));
    assert_eq!(g.prev_color_1, (1, 2, 3));
    assert!(g.notes_vec[0].contains(" color_1=37,41,51 "));
    assert_eq!(g.menus.len(), 3);
    change_colors(&mut g, false, "v", "").unwrap();
    assert_eq!(g.color_2, DARK_THEME_COLOR_3);
    assert_eq!(g.color_3, DARK_THEME_COLOR_2);
    change_colors(&mut g, false, "u", "4").unwrap();
    assert_eq!((g.color_1, g.color_2, g.color_3), ((1, 2, 3), DARK_THEME_COLOR_2, DARK_THEME_COLOR_3));
    change_colors(&mut g, false, "1", "10,20,30").unwrap();
    assert_eq!(g.color_1, (10, 20, 30));
    change_colors(&mut g, false, "4", "1,1,1 - 2,2,2 - 3,3,3").unwrap();
    assert_eq!((g.color_1, g.color_2, g.color_3), ((1, 1, 1), (2, 2, 2), (3, 3, 3)));
    assert!(change_colors(&mut g, false, "u", "7").is_none());
    assert!(change_colors(&mut g, false, "1", "").is_none());
    assert!(change_colors(&mut g, false, "?", "").is_none());
    change_colors(&mut g, false, "x", "").unwrap();
    assert!(!g.use_colors);
    assert!(change_colors(&mut g, false, "d", "").is_none());
    change_colors(&mut g, true, "", "").unwrap();
    assert!(g.use_colors);
}

#[test]
fn notes_are_formatted_and_wrapped() {
    let g = Globals::new();
    assert_eq!(format_note(&g, &(1, "aaa bbb ccc".to_string()), false, 0, true, 13), "(1) aaa bbb\n    ccc");
    assert_eq!(format_note(&g, &(1, "aaa bbb ccc".to_string()), false, 0, false, 13), "(1) aaa bbb\nccc");
    assert_eq!(format_note(&g, &(9, "x".to_string()), false, 2, true, 80), "(9)  x");
    let mut c = Globals::new();
    c.color_2 = (4, 5, 6);
    c.color_3 = (7, 8, 9);
    assert_eq!(format_note(&c, &(3, "hi".to_string()), true, 0, true, 80), "\x1b[38;2;7;8;9m(3) \x1b[38;2;4;5;6mhi");
    assert_eq!(make_spaces(3), "   ");
}

#[test]
fn padding_lines_up_longer_numbers() {
    assert_eq!(calculate_padding(&[(9, "a".to_string()), (10, "b".to_string())]), 2);
    assert_eq!(calculate_padding(&[(1, "a".to_string()), (2, "b".to_string())]), 0);
    assert_eq!(calculate_padding(&[]), 0);
}

#[test]
fn paths_are_shown_with_a_tilde() {
    assert_eq!(shell_contract("/home/u/notes.dat", "/home/u"), "~/notes.dat");
    assert_eq!(shell_contract("/other/notes.dat", "/home/u"), "/other/notes.dat");
    let mut g = numbered(23);
    g.path = "/home/u/x".to_string();
    assert_eq!(show_page_indicator(&g, 2, "/home/u"), "\n< Page 2 of 3 >\n~/x");
}

#[test]
fn a_contracted_path_expands_back() {
    let home = "/home/u";
    for path in ["/home/u", "/home/u/notes.dat", "/home/u/a/b"] {
        let shown = shell_contract(path, home);
        let back = shellexpand::tilde_with_context(&shown, || Some(home));
        assert_eq!(back, path);
    }
    assert_eq!(shell_contract("/home/u", home), "~");
    assert_eq!(shell_contract("/srv/notes.dat", home), "/srv/notes.dat");
}

#[test]
fn a_page_is_printed_with_its_indicator_and_menu() {
    let mut g = numbered(2);
    create_menus(&mut g);
    let out = show_notes(&mut g, 1, &vec![], "", 80, "/h").unwrap();
    let menu = show_menu(&g);
    assert_eq!(
        out,
        vec![
            String::new(),
            "(1) note 1".to_string(),
            String::new(),
            "(2) note 2".to_string(),
            "\n< Page 1 of 1 >\n".to_string(),
            menu,
        ]
    );
    assert_eq!(g.mode, "notes");
    let msg = show_notes(&mut g, 0, &vec![(5, "five".to_string())], "hello", 80, "/h").unwrap();
    assert_eq!(msg[1], "(5) five");
    assert_eq!(msg[2], "\nhello");
    assert!(show_notes(&mut g, 1, &vec![], "", 3, "/h").is_none());
}

#[test]
fn menus_are_made_and_cycled() {
    let mut g = numbered(1);
    create_menus(&mut g);
    assert_eq!(g.menus.len(), 3);
    assert_eq!(
        g.menus[1],
        "\n(+/-) Change Page Size | (G) Goto\n(R) Reset File | (P) Change Password\n($) Change Colors | (U) Undo Last Edit"
    );
    assert!(g.menus[0].starts_with("\n(a)dd | (e)dit | "));
    assert!(g.menus[2].contains("(U) Add From Source File"));
    g.current_menu = 2;
    assert!(matches!(cycle_menu(&mut g), Screen::Page(1)));
    assert_eq!(g.current_menu, 0);
    cycle_menu(&mut g);
    assert_eq!(g.current_menu, 1);
}

#[test]
fn keys_map_to_actions() {
    assert_eq!(menu_input(KeyInput::Char('a')), (MenuAnswer::AddNote, 0));
    assert_eq!(menu_input(KeyInput::Char('A')), (MenuAnswer::AddNoteStart, 0));
    assert_eq!(menu_input(KeyInput::Char('7')), (MenuAnswer::PageNumber, 7));
    assert_eq!(menu_input(KeyInput::Char('0')), (MenuAnswer::Nothing, 0));
    assert_eq!(menu_input(KeyInput::Char('U')), (MenuAnswer::Undo, 0));
    assert_eq!(menu_input(KeyInput::Char('\n')), (MenuAnswer::ModeAction, 0));
    assert_eq!(menu_input(KeyInput::Ctrl('c')), (MenuAnswer::Exit, 0));
    assert_eq!(menu_input(KeyInput::Ctrl('x')), (MenuAnswer::Nothing, 0));
    assert_eq!(menu_input(KeyInput::Left), (MenuAnswer::CycleLeft, 0));
    assert_eq!(menu_input(KeyInput::End), (MenuAnswer::LastPage, 0));
    assert_eq!(menu_input(KeyInput::Backspace), (MenuAnswer::EditLastNote, 0));
    assert_eq!(menu_input(KeyInput::WheelDown), (MenuAnswer::CycleRight, 0));
}

#[test]
fn stats_count_words_letters_and_bytes() {
    let mut g = numbered(2);
    g.path = "/home/u/f".to_string();
    let size = g.notes.len();
    match show_stats(&mut g, 1234, "/home/u") {
        Screen::Notes(v, m) => {
            assert!(v.is_empty());
            assert_eq!(
                m,
                format!(
                    "Stats For: ~/f\n\nNotes: 2\nWords: 4\nLetters: 10\nEncrypted Size: 1234 Bytes\nDecrypted Size: {} Bytes",
                    size
                )
            );
        }
        _ => panic!("expected the stats"),
    }
    assert_eq!(g.mode, "stats");
    assert!(matches!(show_stats(&mut g, 1234, "/home/u"), Screen::Page(1)));
    assert_eq!(count_letters("a b  c"), 3);
}

#[test]
fn screensaver_hides_the_notes() {
    let mut g = numbered(1);
    let row = "😎 😎 😎 😎 😎 😎 😎 😎 😎 😎 😎 😎 😎 😎";
    match show_screensaver(&mut g) {
        Screen::Notes(v, m) => {
            assert!(v.is_empty());
            assert_eq!(m, vec![row; 7].join("\n\n"));
        }
        _ => panic!("expected the screen saver"),
    }
    assert!(matches!(show_screensaver(&mut g), Screen::Page(1)));
}

#[test]
fn about_screen_names_the_program() {
    let mut g = numbered(1);
    match show_about(&mut g) {
        Screen::Notes(_, m) => {
            assert!(m.starts_with("\n8888888888  .d888  .d888\n"));
            assert!(m.contains("\n\nEffer v1.11.0 | Encrypted Notepad\n\nTip: Different major versions may not be compatible\n"));
            assert!(m.ends_with("Tip: Start the program with --help to check arguments"));
        }
        _ => panic!("expected the about screen"),
    }
    assert_eq!(g.mode, "about");
    assert_eq!(make_tip(&g, "x"), "Tip: x");
}

#[test]
fn yes_no_answers() {
    assert_eq!(ask_bool_prompt("Exit?", false), "Exit? (y, n)");
    assert_eq!(ask_bool_prompt("Sure?", true), "Sure? (Y, n)");
    assert_eq!(ask_bool("y", false), Some(true));
    assert_eq!(ask_bool("y", true), None);
    assert_eq!(ask_bool(" Y ", true), Some(true));
    assert_eq!(ask_bool("", true), Some(false));
    assert_eq!(ask_bool("N", false), Some(false));
    assert_eq!(ask_bool("maybe", false), None);
    assert_eq!(ask_string("  a b ".to_string(), true), "a b");
    assert_eq!(ask_string("  a b ".to_string(), false), "  a b ");
}

#[test]
fn passwords_are_asked_and_confirmed() {
    let mut g = Globals::new();
    assert_eq!(password_question(&g, false), PasswordQuestion::NoQuestion);
    assert_eq!(get_password(&mut g, false, "", ""), Some("none".to_string()));
    g.derivation = 1;
    assert_eq!(password_question(&g, false), PasswordQuestion::Password);
    assert_eq!(password_question(&g, true), PasswordQuestion::NewPassword);
    assert_eq!(get_password(&mut g, false, "pw", ""), Some("pw".to_string()));
    assert_eq!(g.password, "pw");
    assert_eq!(password_question(&g, false), PasswordQuestion::NoQuestion);
    assert_eq!(get_password(&mut g, false, "other", ""), Some("pw".to_string()));
    assert_eq!(get_password(&mut g, true, "new", "nwe"), None);
    assert_eq!(g.password, "pw");
    assert_eq!(get_password(&mut g, true, "", ""), Some(String::new()));
    assert_eq!(get_password(&mut g, true, "new", "new"), Some("new".to_string()));
    assert_eq!(g.password, "new");
}

#[test]
fn a_new_password_seals_the_notes_again() {
    let mut g = numbered(1);
    let text = g.notes.clone();
    assert!(change_password(&mut g, "", text.clone()).is_none());
    let r = change_password(&mut g, "none", text.clone());
    assert!(matches!(r, Some(Ok(_))));
    assert_eq!(g.notes, text);
}

#[test]
fn key_derivation_answers() {
    let mut g = Globals::new();
    assert!(!get_key_derivation(&mut g, "3"));
    assert_eq!(g.derivation, 0);
    assert!(get_key_derivation(&mut g, "2"));
    assert_eq!(g.derivation, 2);
    assert_eq!(change_key_derivation(&mut g, "0"), Some(false));
    assert_eq!(g.derivation, 0);
    assert_eq!(change_key_derivation(&mut g, "1"), Some(true));
    assert_eq!(change_key_derivation(&mut g, "2"), Some(false));
    assert_eq!(change_key_derivation(&mut g, "x"), None);
    assert_eq!(g.derivation, 2);
    assert_eq!(change_security("1"), SecurityChoice::ChangePassword);
    assert_eq!(change_security("2"), SecurityChoice::ChangeKeyDerivation);
    assert_eq!(change_security("3"), SecurityChoice::Nothing);
}

#[test]
fn default_file_path_under_home() {
    assert_eq!(get_default_file_path("/home/u"), "/home/u/.config/effer/effer.dat");
    assert_eq!(get_default_file_path("/"), "/.config/effer/effer.dat");
    assert_eq!(get_default_file_path(""), ".config/effer/effer.dat");
}

#[test]
fn path_checks_decide_what_follows() {
    assert_eq!(handle_file_path_check(FilePathCheckResult::Exists), PathCheckAction::Proceed);
    assert_eq!(handle_file_path_check(FilePathCheckResult::DoesNotExist), PathCheckAction::OfferCreate);
    assert_eq!(handle_file_path_check(FilePathCheckResult::NotAFile), PathCheckAction::Stop);
    assert_eq!(FilePathCheckResult::Exists.message(), "File exists.");
    assert_eq!(FilePathCheckResult::DoesNotExist.message(), "File doesn't exist.");
    assert_eq!(FilePathCheckResult::NotAFile.message(), "The path exists but it's not a file.");
}

#[test]
fn a_new_file_holds_a_placeholder_header() {
    let g = Globals::new();
    assert!(create_file(&g, "").is_none());
    let bytes = match create_file(&g, "none") {
        Some(Ok(b)) => b,
        _ => panic!("expected the bytes of a new file"),
    };
    let mut h = Globals::new();
    assert_eq!(decrypt_bytes(&mut h, &bytes), Ok("Dummy Space".to_string()));
}

#[test]
fn sources_are_read_or_reported() {
    let mut g = numbered(1);
    assert!(get_source_content(&mut g, Some("a\nb".to_string())).is_ok());
    assert_eq!(g.source, "a\nb");
    assert!(matches!(get_source_content(&mut g, None), Err(None)));
    assert_eq!(g.source, "a\nb");
    g.started = true;
    match get_source_content(&mut g, None) {
        Err(Some(Screen::Notes(_, m))) => assert_eq!(m, "< Invalid Source Path >"),
        _ => panic!("expected a message"),
    }
    assert!(g.source.is_empty());
    assert!(fetch_source(&mut g, "/tmp/s.txt".to_string(), Some("x".to_string())).is_ok());
    assert_eq!(g.last_path, "/tmp/s.txt");
    assert_eq!(g.source, "x");
}

#[test]
fn opening_another_file() {
    let mut g = numbered(1);
    g.path = "/a".to_string();
    g.password = "pw".to_string();
    assert!(matches!(open_from_path(&mut g, "/b".to_string(), FilePathCheckResult::Exists), OpenPlan::Open));
    assert_eq!(g.last_path, "/b");
    assert!(matches!(
        open_from_path(&mut g, "/c".to_string(), FilePathCheckResult::DoesNotExist),
        OpenPlan::OfferCreate
    ));
    match open_from_path(&mut g, "/d".to_string(), FilePathCheckResult::NotAFile) {
        OpenPlan::Show(Screen::Notes(_, m)) => assert_eq!(m, "< Path Is Not A File >"),
        _ => panic!("expected a message"),
    }
    let prev = do_open_path(&mut g, "/b".to_string());
    assert_eq!(prev, ("pw".to_string(), "/a".to_string()));
    assert_eq!(g.path, "/b");
    assert!(g.password.is_empty());
    match restore_path(&mut g, prev, OpenFailure::Decrypt) {
        Screen::Notes(_, m) => assert_eq!(m, "< Can't Decrypt File >"),
        _ => panic!("expected a message"),
    }
    assert_eq!(g.path, "/a");
    assert_eq!(g.password, "pw");
}

#[test]
fn an_opened_file_resets_the_state() {
    let mut g = numbered(3);
    g.last_edit = 2;
    g.prev_notes = "old".to_string();
    let r = reset_state(&mut g, format!("{}\nonly", HEADER));
    assert!(r.is_none());
    assert_eq!(g.notes_length, 1);
    assert_eq!(g.last_edit, 0);
    assert!(g.prev_notes.is_empty());
    assert_eq!(g.color_1, (1, 2, 3));
    assert_eq!(g.menus.len(), 3);
    assert_eq!(reset_file("f"), ResetChoice::RemakeFile);
    assert_eq!(reset_file("s"), ResetChoice::ResetSettings);
    assert_eq!(reset_file("q"), ResetChoice::Nothing);
}

#[test]
fn the_command_line_picks_the_path_and_settings() {
    assert_eq!(choose_path(Some("a".to_string()), Some("b".to_string()), "c".to_string()), "a");
    assert_eq!(choose_path(None, Some("b".to_string()), "c".to_string()), "b");
    assert_eq!(choose_path(None, None, "c".to_string()), "c");
    let mut g = Globals::new();
    g.arg_row_space = "true".to_string();
    apply_settings(
        &mut g,
        Settings {
            page_size: Some("20".to_string()),
            row_space: None,
            color_1: Some("1,2,3".to_string()),
            color_2: None,
            color_3: None,
            use_colors: Some("false".to_string()),
        },
    );
    assert_eq!(g.arg_page_size, "20");
    assert_eq!(g.arg_row_space, "true");
    assert_eq!(g.arg_color_1, "1,2,3");
    assert_eq!(g.arg_use_colors, "false");
    assert_eq!(print_mode(false, false, true, true, false, false), Some(PrintMode::FPrint));
    assert_eq!(print_mode(false, false, false, false, false, false), None);
}

fn page_size_only(v: &str) -> Settings {
    Settings {
        page_size: Some(v.to_string()),
        row_space: None,
        color_1: None,
        color_2: None,
        color_3: None,
        use_colors: None,
    }
}

#[test]
fn a_config_file_takes_the_place_of_the_options() {
    let mut g = Globals::new();
    apply_given_settings(&mut g, true, Some(page_size_only("7")), page_size_only("9"));
    assert_eq!(g.arg_page_size, "7");
    let mut g = Globals::new();
    g.arg_page_size = "3".to_string();
    apply_given_settings(&mut g, true, None, page_size_only("9"));
    assert_eq!(g.arg_page_size, "3");
    let mut g = Globals::new();
    apply_given_settings(&mut g, false, Some(page_size_only("7")), page_size_only("9"));
    assert_eq!(g.arg_page_size, "9");
}

#[test]
fn print_modes_write_the_notes() {
    let g = Globals::new();
    let notes = "h\nl1\nl2\nl3";
    assert_eq!(print_text(&g, notes, PrintMode::Print, 80), Some("h\nl1\nl2\nl3".to_string()));
    assert_eq!(print_text(&g, notes, PrintMode::Print2, 80), Some("h\n\nl1\n\nl2\n\nl3".to_string()));
    assert_eq!(print_text(&g, notes, PrintMode::FPrint, 80), Some("(1) l1\n(2) l2\n(3) l3".to_string()));
    assert_eq!(print_text(&g, notes, PrintMode::FPrint2, 80), Some("(1) l1\n\n(2) l2\n\n(3) l3".to_string()));
    assert_eq!(print_text(&g, "h\nl1\nl2 word", PrintMode::FPrint3, 10), Some("(1) l1\n(2) l2\nword".to_string()));
    assert_eq!(print_text(&g, "h\nl1\nl2 word", PrintMode::FPrint, 10), Some("(1) l1\n(2) l2\n    word".to_string()));
    assert_eq!(print_text(&g, "hdr\nA\nB", PrintMode::FPrint, 80), Some("(1) A\n(2) B".to_string()));
    assert_eq!(print_text(&g, notes, PrintMode::FPrint, 5), None);
    assert_eq!(print_text(&g, "h", PrintMode::FPrint, 5), Some(String::new()));
    assert_eq!(join_spaced(&vec!["a".to_string(), "b".to_string()], true), "a\n\nb");
}

#[test]
fn opening_outcomes() {
    let mut g = Globals::new();
    assert!(matches!(open_outcome(&g, Ok("t".to_string())), OpenOutcome::Text(t) if t == "t"));
    assert!(matches!(open_outcome(&g, Err(CryptoError::NeedPassword)), OpenOutcome::AskPassword));
    assert!(matches!(open_outcome(&g, Err(CryptoError::Decryption)), OpenOutcome::Fatal));
    g.started = true;
    assert!(matches!(open_outcome(&g, Err(CryptoError::InvalidLength)), OpenOutcome::Unreadable));
}

#[test]
fn direct_menu_actions() {
    let mut g = numbered(23);
    create_menus(&mut g);
    let step = menu_action(&mut g, (MenuAnswer::CycleLeft, 0)).unwrap();
    assert!(step.save.is_none() && matches!(step.screen, Screen::Stay));
    assert!(matches!(menu_action(&mut g, (MenuAnswer::CycleRight, 0)).unwrap().screen, Screen::Page(2)));
    assert!(matches!(menu_action(&mut g, (MenuAnswer::LastPage, 0)).unwrap().screen, Screen::Page(3)));
    assert!(matches!(menu_action(&mut g, (MenuAnswer::PageNumber, 0)).unwrap().screen, Screen::Page(1)));
    assert!(matches!(menu_action(&mut g, (MenuAnswer::PageNumber, 2)).unwrap().screen, Screen::Page(2)));
    let step = menu_action(&mut g, (MenuAnswer::ChangeRowSpace, 0)).unwrap();
    assert!(matches!(step.save, Some(Ok(_))) && matches!(step.screen, Screen::Stay));
    assert!(!g.row_space);
    let step = menu_action(&mut g, (MenuAnswer::IncreasePageSize, 0)).unwrap();
    assert!(matches!(step.save, Some(Ok(_))));
    assert_eq!(g.page_size, 15);
    assert!(matches!(menu_action(&mut g, (MenuAnswer::ChangeMenu, 0)).unwrap().screen, Screen::Page(1)));
    assert_eq!(g.current_menu, 1);
    assert!(menu_action(&mut g, (MenuAnswer::AddNote, 0)).is_none());
    assert!(menu_action(&mut g, (MenuAnswer::Exit, 0)).is_none());
    let step = menu_action(&mut g, (MenuAnswer::Nothing, 0)).unwrap();
    assert!(step.save.is_none() && matches!(step.screen, Screen::Stay));
}

#[test]
fn a_failed_switch_keeps_the_previous_file() {
    let mut g = numbered(2);
    g.path = "/a".to_string();
    g.password = "pw".to_string();
    g.last_edit = 2;
    let before_notes = g.notes.clone();
    let prev = do_open_path(&mut g, "/b".to_string());
    let step = finish_open_path(&mut g, prev, true, String::new());
    assert!(step.save.is_none());
    match step.screen {
        Screen::Notes(_, m) => assert_eq!(m, "< Can't Decrypt File >"),
        _ => panic!("expected a message"),
    }
    assert_eq!(g.path, "/a");
    assert_eq!(g.password, "pw");
    assert_eq!(g.notes, before_notes);
    assert_eq!(g.last_edit, 2);
    let prev = do_open_path(&mut g, "/c".to_string());
    match finish_open_path(&mut g, prev, false, String::new()).screen {
        Screen::Notes(_, m) => assert_eq!(m, "< Can't Create File >"),
        _ => panic!("expected a message"),
    }
    assert_eq!(g.path, "/a");
}

#[test]
fn a_successful_switch_takes_the_new_notes() {
    let mut g = numbered(2);
    g.last_edit = 2;
    let prev = do_open_path(&mut g, "/b".to_string());
    let mut text = HEADER.to_string();
    for i in 1..=25 {
        text.push_str(&format!("\nn{}", i));
    }
    let step = finish_open_path(&mut g, prev, true, text);
    assert!(step.save.is_none());
    assert!(matches!(step.screen, Screen::Page(3)));
    assert_eq!(g.path, "/b");
    assert_eq!(g.notes_length, 25);
    assert_eq!(g.last_edit, 0);
}

#[test]
fn typed_colors_are_read() {
    assert_eq!(read_color("Red", (1, 1, 1)), (255, 0, 0));
    assert_eq!(read_color("Dark Red", (1, 1, 1)), (139, 0, 0));
    assert_eq!(read_color(" 10, 20 ,30", (1, 1, 1)), (10, 20, 30));
    assert_eq!(read_color("1,x,300", (1, 1, 1)), (1, 0, 0));
    assert_eq!(read_color("1,2", (1, 1, 1)), (1, 1, 1));
    assert_eq!(read_color("nonsense", (1, 1, 1)), (1, 1, 1));
    assert_eq!(clean_color_text("Dark Red"), "darkred");
    let _ = read_color("RANDOM", (1, 1, 1));
    let mut g = numbered(1);
    g.use_colors = true;
    g.color_3 = (7, 8, 9);
    change_colors(&mut g, false, "4", "red - 1,2,3").unwrap();
    assert_eq!((g.color_1, g.color_2, g.color_3), ((255, 0, 0), (1, 2, 3), (7, 8, 9)));
    change_colors(&mut g, false, "2", "White").unwrap();
    assert_eq!(g.color_2, (255, 255, 255));
}
