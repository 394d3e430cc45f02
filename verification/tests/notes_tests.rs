use effer::file::{delete_lines, get_header, get_line, handle_source, move_lines, nonblank_lines, replace_line, swap_lines, update_file};
use effer::encryption::CryptoError;
use effer::globals::{g_get_found_next, g_set_color_1, Globals};
use effer::notes::{
    add_note, change_page_size, change_row_space, check_line_exists, check_page_number, cycle_left, cycle_right,
    delete_notes, delete_notes_numbers, edit_last_note, edit_note, edit_note_suggestion, expand_note_number,
    find_notes, get_max_page_number, get_note_page, get_notes, get_page_notes, goto_first_page, goto_last_page,
    goto_page, mode_action, move_notes, next_found, parse_note_ans, parse_page_ans, refresh_page, show_all_notes,
    show_page, swap_notes, undo_last_edit, update_notes_statics, DeleteChoice, Screen,
};

const HEADER: &str = "page_size=10 row_space=true color_1=1,2,3 color_2=4,5,6 color_3=7,8,9 use_colors=false";

fn state(text: &str) -> Globals {
    let mut g = Globals::new();
    g.use_colors = false;
    g.page_size = 10;
    update_notes_statics(&mut g, text.to_string());
    g
}

fn numbered(n: usize) -> Globals {
    let mut text = HEADER.to_string();
    for i in 1..=n {
        text.push_str(&format!("\nnote {}", i));
    }
    state(&text)
}

fn lines_of(g: &Globals) -> Vec<String> {
    g.notes_vec.clone()
}

#[test]
fn statics_follow_the_text() {
    let g = state("h\r\na\nb\n");
    assert_eq!(g.notes_vec, vec!["h".to_string(), "a".to_string(), "b".to_string()]);
    assert_eq!(g.notes_length, 2);
    assert_eq!(g.notes, "h\r\na\nb\n");
}

#[test]
fn pages_are_counted_rounding_up() {
    let g = numbered(23);
    assert_eq!(get_max_page_number(&g), 3);
    assert_eq!(get_note_page(&g, 1), 1);
    assert_eq!(get_note_page(&g, 10), 1);
    assert_eq!(get_note_page(&g, 11), 2);
    assert_eq!(get_note_page(&g, 23), 3);
    let empty = state(HEADER);
    assert_eq!(get_max_page_number(&empty), 1);
}

#[test]
fn page_numbers_are_brought_into_range() {
    let g = numbered(23);
    assert_eq!(check_page_number(&g, 0, true), 0);
    assert_eq!(check_page_number(&g, 0, false), 1);
    assert_eq!(check_page_number(&g, 2, false), 2);
    assert_eq!(check_page_number(&g, 9, true), 3);
}

#[test]
fn a_checked_page_number_checks_the_same_again() {
    let g = numbered(23);
    for page in 0..8 {
        for allow_zero in [false, true] {
            let once = check_page_number(&g, page, allow_zero);
            assert_eq!(check_page_number(&g, once, allow_zero), once);
            if !(allow_zero && page == 0) {
                assert!(1 <= once && once <= 3);
            }
            if 1 <= page && page <= 3 {
                assert_eq!(once, page);
            }
        }
    }
}

#[test]
fn a_page_holds_its_notes() {
    let g = numbered(23);
    let p2 = get_page_notes(&g, 2);
    assert_eq!(p2.len(), 10);
    assert_eq!(p2[0], (11, "note 11".to_string()));
    assert_eq!(p2[9], (20, "note 20".to_string()));
    let p3 = get_page_notes(&g, 3);
    assert_eq!(p3.len(), 3);
    assert_eq!(p3[2], (23, "note 23".to_string()));
}

#[test]
fn every_note_is_on_its_page() {
    let g = numbered(37);
    for n in 1..=37usize {
        let p = get_note_page(&g, n);
        assert!(p >= 1 && p <= get_max_page_number(&g));
        assert!(get_page_notes(&g, p).iter().any(|(k, _)| *k == n));
    }
}

#[test]
fn cycling_stops_at_the_ends() {
    let mut g = numbered(23);
    g.page = 1;
    assert_eq!(cycle_left(&g), None);
    assert_eq!(cycle_right(&g), Some(2));
    g.page = 3;
    assert_eq!(cycle_left(&g), Some(2));
    assert_eq!(cycle_right(&g), None);
}

#[test]
fn note_answers_read_first_and_last() {
    let g = numbered(23);
    assert_eq!(parse_note_ans(&g, "first"), 1);
    assert_eq!(parse_note_ans(&g, "last"), 23);
    assert_eq!(parse_note_ans(&g, "7"), 7);
    assert_eq!(parse_note_ans(&g, "+7"), 7);
    assert_eq!(parse_note_ans(&g, "seven"), 0);
    assert_eq!(parse_page_ans(&g, "last"), 3);
    assert!(check_line_exists(&g, 23));
    assert!(!check_line_exists(&g, 24));
    assert!(!check_line_exists(&g, 0));
    assert_eq!(expand_note_number(&g, 1), "first");
    assert_eq!(expand_note_number(&g, 23), "last");
    assert_eq!(expand_note_number(&g, 12), "12");
}

#[test]
fn adding_a_note_appends_it() {
    let mut g = numbered(2);
    let step = add_note(&mut g, false, "third");
    assert!(matches!(step.save, Some(Ok(_))));
    assert!(matches!(step.screen, Screen::Page(1)));
    assert_eq!(g.notes_length, 3);
    assert_eq!(g.notes_vec[3], "third");
    assert_eq!(g.last_edit, 3);
}

#[test]
fn adding_a_note_at_the_start() {
    let mut g = numbered(2);
    let step = add_note(&mut g, true, "zero");
    assert!(matches!(step.save, Some(Ok(_))));
    assert!(matches!(step.screen, Screen::Page(1)));
    assert_eq!(lines_of(&g)[1..], ["zero".to_string(), "note 1".to_string(), "note 2".to_string()]);
    assert_eq!(g.last_edit, 1);
}

#[test]
fn a_blank_note_is_not_added() {
    let mut g = numbered(2);
    let step = add_note(&mut g, false, "   ");
    assert!(step.save.is_none());
    assert!(matches!(step.screen, Screen::Stay));
    assert_eq!(g.notes_length, 2);
}

#[test]
fn editing_replaces_only_that_note() {
    let mut g = numbered(12);
    let step = edit_note(&mut g, 11, "changed");
    assert!(matches!(step.save, Some(Ok(_))));
    assert!(matches!(step.screen, Screen::Page(2)));
    assert_eq!(g.notes_vec[11], "changed");
    assert_eq!(g.notes_vec[10], "note 10");
    assert_eq!(g.notes_vec[12], "note 12");
    assert_eq!(g.last_edit, 11);
    assert_eq!(edit_note_suggestion(&g), "11");
    let step = edit_last_note(&mut g, "again");
    assert!(matches!(step.save, Some(Ok(_))));
    assert_eq!(g.notes_vec[12], "again");
    assert_eq!(g.last_edit, 12);
}

#[test]
fn editing_a_missing_note_does_nothing() {
    let mut g = numbered(3);
    let step = edit_note(&mut g, 4, "x");
    assert!(step.save.is_none());
    assert!(matches!(step.screen, Screen::Stay));
    let step = edit_note(&mut g, 2, "");
    assert!(step.save.is_none());
    assert_eq!(g.notes_vec[2], "note 2");
}

#[test]
fn swapping_keeps_the_last_edited_note() {
    let mut g = numbered(4);
    g.last_edit = 1;
    let step = swap_notes(&mut g, "1 last");
    assert!(matches!(step.save, Some(Ok(_))));
    assert_eq!(g.notes_vec[1], "note 4");
    assert_eq!(g.notes_vec[4], "note 1");
    assert_eq!(g.last_edit, 4);
    assert_eq!(g.notes_vec[g.last_edit], "note 1");
    let step = swap_notes(&mut g, "1 9");
    assert!(step.save.is_none());
}

#[test]
fn moving_a_note_down() {
    let mut g = numbered(5);
    g.last_edit = 3;
    let step = move_notes(&mut g, "1 3");
    assert!(matches!(step.save, Some(Ok(_))));
    assert_eq!(lines_of(&g)[1..], ["note 2", "note 3", "note 1", "note 4", "note 5"]);
    assert_eq!(g.notes_vec[g.last_edit], "note 3");
}

#[test]
fn moving_a_block_and_by_steps() {
    let mut g = numbered(5);
    g.last_edit = 5;
    let step = move_notes(&mut g, "1-2 4");
    assert!(matches!(step.save, Some(Ok(_))));
    assert_eq!(lines_of(&g)[1..], ["note 3", "note 4", "note 1", "note 2", "note 5"]);
    assert_eq!(g.notes_vec[g.last_edit], "note 5");
    let step = move_notes(&mut g, "4 up 3");
    assert!(matches!(step.save, Some(Ok(_))));
    assert_eq!(lines_of(&g)[1..], ["note 2", "note 3", "note 4", "note 1", "note 5"]);
    let step = move_notes(&mut g, "1 down 2");
    assert!(matches!(step.save, Some(Ok(_))));
    assert_eq!(lines_of(&g)[1..], ["note 3", "note 4", "note 2", "note 1", "note 5"]);
}

#[test]
fn moves_that_name_nothing_do_nothing() {
    let mut g = numbered(5);
    for ans in ["", "3 3", "9 1", "1 up 1", "5 down 1", "2-1 4", "1-2-3 4"] {
        let step = move_notes(&mut g, ans);
        assert!(step.save.is_none(), "{}", ans);
    }
    assert_eq!(g.notes_length, 5);
}

#[test]
fn deleting_by_number_list_and_range() {
    let g = numbered(6);
    assert!(matches!(delete_notes_numbers(&g, ""), DeleteChoice::Nothing));
    match delete_notes_numbers(&g, "2") {
        DeleteChoice::Numbers(v) => assert_eq!(v, vec![2]),
        _ => panic!("expected numbers"),
    }
    match delete_notes_numbers(&g, "1, 3,9") {
        DeleteChoice::Numbers(v) => assert_eq!(v, vec![1, 3]),
        _ => panic!("expected numbers"),
    }
    match delete_notes_numbers(&g, "2-last") {
        DeleteChoice::Numbers(v) => assert_eq!(v, vec![2, 3, 4, 5, 6]),
        _ => panic!("expected numbers"),
    }
    match delete_notes_numbers(&g, "4-2") {
        DeleteChoice::Message(m) => assert_eq!(m, "< No Messages Were Deleted >"),
        _ => panic!("expected a message"),
    }
    match delete_notes_numbers(&g, "re:NOTE [35]") {
        DeleteChoice::Numbers(v) => assert_eq!(v, vec![3, 5]),
        _ => panic!("expected numbers"),
    }
    match delete_notes_numbers(&g, "re:(") {
        DeleteChoice::Message(m) => assert_eq!(m, "< Invalid Regex | (Enter) Return >"),
        _ => panic!("expected a message"),
    }
}

#[test]
fn deleting_notes_removes_them() {
    let mut g = numbered(4);
    g.last_edit = 2;
    let step = delete_notes(&mut g, vec![2, 3]);
    assert!(matches!(step.save, Some(Ok(_))));
    assert_eq!(lines_of(&g)[1..], ["note 1", "note 4"]);
    assert_eq!(g.last_edit, 0);
    let step = delete_notes(&mut g, vec![]);
    assert!(step.save.is_none());
    match step.screen {
        Screen::Notes(v, m) => {
            assert!(v.is_empty());
            assert_eq!(m, "< No Messages Were Deleted >");
        }
        _ => panic!("expected a message"),
    }
}

#[test]
fn finding_ignores_case() {
    let mut g = numbered(12);
    let screen = find_notes(&mut g, "NOTE 1");
    match screen {
        Screen::Notes(v, m) => {
            assert_eq!(v.len(), 4);
            assert_eq!(v[0], (1, "note 1".to_string()));
            assert_eq!(v[1], (10, "note 10".to_string()));
            assert_eq!(m, "< 4 Results for note 1 >");
        }
        _ => panic!("expected found notes"),
    }
    assert_eq!(g.mode, "found");
    assert_eq!(g.last_find, "note 1");
}

#[test]
fn finding_shows_five_at_a_time() {
    let mut g = numbered(12);
    let screen = find_notes(&mut g, "re:^note \\d+$");
    match screen {
        Screen::Notes(v, m) => {
            assert_eq!(v.len(), 5);
            assert_eq!(m, "< 5/12 Results for re:^note \\d+$ | (Enter) More >");
        }
        _ => panic!("expected found notes"),
    }
    match mode_action(&mut g) {
        Screen::Notes(v, m) => {
            assert_eq!(v[0].0, 6);
            assert_eq!(m, "< 10/12 Results for re:^note \\d+$ | (Enter) More >");
        }
        _ => panic!("expected found notes"),
    }
    match next_found(&mut g) {
        Screen::Notes(v, m) => {
            assert_eq!(v.len(), 2);
            assert_eq!(m, "< 12/12 Results for re:^note \\d+$ >");
        }
        _ => panic!("expected found notes"),
    }
    assert!(matches!(next_found(&mut g), Screen::Page(1)));
}

#[test]
fn finding_reports_nothing_and_bad_patterns() {
    let mut g = numbered(3);
    match find_notes(&mut g, "zebra") {
        Screen::Notes(v, m) => {
            assert!(v.is_empty());
            assert_eq!(m, "< No Results for zebra >");
        }
        _ => panic!("expected a message"),
    }
    match find_notes(&mut g, "re:(") {
        Screen::Notes(_, m) => assert_eq!(m, "< Invalid Regex: re:( >"),
        _ => panic!("expected a message"),
    }
    assert!(matches!(find_notes(&mut g, ""), Screen::Stay));
}

#[test]
fn found_notes_are_handed_out_in_order() {
    let mut g = numbered(3);
    g.found = vec![(1, "a".to_string()), (2, "b".to_string()), (3, "c".to_string())].into();
    g.found_length = 3;
    let first = g_get_found_next(&mut g, 2);
    assert_eq!(first, vec![(1, "a".to_string()), (2, "b".to_string())]);
    assert_eq!(g.found, vec![(3, "c".to_string())]);
}

#[test]
fn pages_and_goto() {
    let g = numbered(23);
    assert!(matches!(goto_first_page(), Screen::Page(1)));
    assert!(matches!(goto_last_page(&g), Screen::Page(3)));
    assert!(matches!(show_page(2), Screen::Page(2)));
    assert!(matches!(refresh_page(&g), Screen::Page(1)));
    assert!(matches!(goto_page(&g, "p", "2"), Screen::Page(2)));
    assert!(matches!(goto_page(&g, "p", "4"), Screen::Stay));
    assert!(matches!(goto_page(&g, "n", "15"), Screen::Page(2)));
    assert!(matches!(goto_page(&g, "n", "last"), Screen::Page(3)));
    assert!(matches!(goto_page(&g, "x", "1"), Screen::Stay));
}

#[test]
fn all_notes_toggle() {
    let mut g = numbered(3);
    match show_all_notes(&mut g) {
        Screen::Notes(v, m) => {
            assert_eq!(v, vec![(1, "note 1".to_string()), (2, "note 2".to_string()), (3, "note 3".to_string())]);
            assert!(m.is_empty());
        }
        _ => panic!("expected all notes"),
    }
    assert_eq!(g.mode, "all_notes");
    assert!(matches!(show_all_notes(&mut g), Screen::Page(1)));
}

#[test]
fn page_size_changes_in_steps() {
    let mut g = numbered(23);
    let r = change_page_size(&mut g, true);
    assert!(matches!(r, Some(Ok(_))));
    assert_eq!(g.page_size, 15);
    assert!(g.notes_vec[0].starts_with("page_size=15 "));
    let r = change_page_size(&mut g, false);
    assert!(matches!(r, Some(Ok(_))));
    let r = change_page_size(&mut g, false);
    assert!(matches!(r, Some(Ok(_))));
    assert_eq!(g.page_size, 5);
    assert!(change_page_size(&mut g, false).is_none());
    let mut small = numbered(3);
    assert!(change_page_size(&mut small, true).is_none());
}

#[test]
fn row_space_toggles_in_the_header() {
    let mut g = numbered(1);
    assert!(g.row_space);
    let r = change_row_space(&mut g);
    assert!(r.is_ok());
    assert!(!g.row_space);
    assert!(g.notes_vec[0].contains(" row_space=false "));
}

#[test]
fn notes_are_read_again_when_asked() {
    let g = numbered(1);
    assert_eq!(get_notes(&g, false), Some(g.notes.clone()));
    assert_eq!(get_notes(&g, true), None);
    assert_eq!(get_notes(&Globals::new(), false), None);
}

#[test]
fn undo_brings_back_the_previous_text() {
    let mut g = numbered(2);
    let before = g.notes.clone();
    let step = edit_note(&mut g, 1, "edited");
    assert!(matches!(step.save, Some(Ok(_))));
    assert_eq!(g.prev_notes, before);
    let step = undo_last_edit(&mut g);
    assert!(matches!(step.save, Some(Ok(_))));
    assert_eq!(g.notes, before);
    assert_eq!(g.notes_vec[1], "note 1");
}

#[test]
fn undo_with_nothing_to_undo() {
    let mut g = numbered(2);
    g.prev_notes = g.notes.clone();
    let step = undo_last_edit(&mut g);
    assert!(step.save.is_none());
    match step.screen {
        Screen::Notes(_, m) => assert_eq!(m, "< Nothing To Undo >"),
        _ => panic!("expected a message"),
    }
}

#[test]
fn saving_an_empty_text_fails() {
    let mut g = numbered(2);
    let before = g.notes.clone();
    assert_eq!(update_file(&mut g, String::new()), Err(CryptoError::EmptyNotes));
    assert_eq!(g.notes, before);
}

#[test]
fn line_operations() {
    let mut g = numbered(4);
    assert_eq!(get_line(&g, 2), "note 2");
    assert_eq!(get_line(&g, 9), "");
    assert_eq!(get_header(&g), HEADER);
    assert!(replace_line(&mut g, 2, "two".to_string()).is_ok());
    assert_eq!(g.notes_vec[2], "two");
    assert!(swap_lines(&mut g, 1, 2).is_ok());
    assert_eq!(lines_of(&g)[1..3], ["two", "note 1"]);
    assert!(move_lines(&mut g, 1, 1, 4).is_ok());
    assert_eq!(lines_of(&g)[1..], ["note 1", "note 3", "note 4", "two"]);
    assert!(delete_lines(&mut g, vec![0, 1]).is_ok());
    assert_eq!(lines_of(&g), vec![HEADER.to_string(), "note 3".to_string(), "note 4".to_string(), "two".to_string()]);
}

#[test]
fn source_lines_fill_an_empty_file() {
    let mut g = state(HEADER);
    g.started = true;
    g.source = "one\n\n  \ntwo\n".to_string();
    let step = handle_source(&mut g, "", false);
    assert!(matches!(step.save, Some(Ok(_))));
    assert!(matches!(step.screen, Screen::Page(1)));
    assert_eq!(lines_of(&g)[1..], ["one", "two"]);
    assert!(g.source.is_empty());
    assert_eq!(nonblank_lines("a\n \nb"), vec!["a".to_string(), "b".to_string()]);
}

#[test]
fn source_lines_append_prepend_replace() {
    let mut g = numbered(2);
    g.source = "x".to_string();
    let step = handle_source(&mut g, "a", false);
    assert!(matches!(step.save, Some(Ok(_))));
    assert_eq!(lines_of(&g)[1..], ["note 1", "note 2", "x"]);
    g.source = "y".to_string();
    g.last_edit = 2;
    handle_source(&mut g, "p", false);
    assert_eq!(lines_of(&g)[1..], ["y", "note 1", "note 2", "x"]);
    assert_eq!(g.last_edit, 0);
    g.source = "z".to_string();
    let step = handle_source(&mut g, "r", false);
    assert!(step.save.is_none());
    assert!(g.source.is_empty());
    g.source = "z".to_string();
    handle_source(&mut g, "r", true);
    assert_eq!(lines_of(&g)[1..], ["z"]);
}

#[test]
fn changing_a_color_keeps_the_previous_one() {
    let mut g = Globals::new();
    g_set_color_1(&mut g, (1, 2, 3));
    assert_eq!(g.color_1, (1, 2, 3));
    assert_eq!(g.prev_color_1, (50, 50, 50));
}

#[test]
fn pages_cover_all_notes_in_order() {
    for size in [5usize, 10, 15] {
        let mut g = numbered(23);
        g.page_size = size;
        let mut all: Vec<usize> = vec![];
        for p in 1..=get_max_page_number(&g) {
            all.extend(get_page_notes(&g, p).iter().map(|(n, _)| *n));
        }
        assert_eq!(all, (1..=23).collect::<Vec<usize>>());
    }
}

#[test]
fn adding_after_a_save_keeps_earlier_lines() {
    let mut g = numbered(2);
    assert!(edit_note(&mut g, 2, "two").save.unwrap().is_ok());
    let before = g.notes_vec.clone();
    add_note(&mut g, false, "three");
    assert_eq!(g.notes_vec[..3], before[..]);
    assert_eq!(g.notes_vec[3], "three");
    assert_eq!(g.last_edit, g.notes_length);
}
