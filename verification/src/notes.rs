//! The notes: paging, note numbers and the rules that keep the last-edited
//! note pointing at the same note.

use vstd::prelude::*;

use crate::encryption::CryptoError;
use crate::patterns::{regex_compiles, regex_is_match, regex_matches, regex_valid};
use crate::file::{lemma_move_keeps_lines, delete_lines, kept_lines, contains_number, move_lines, move_target, replace_line, saved, spec_move, swap_lines, update_file, valid_move};
use crate::globals::{clone_strings, g_get_found_next, g_get_notes_vec_range, g_set_found, Globals};
use crate::colors::{get_color, spec_color};
use crate::globals::{MAX_PAGE_SIZE, PAGE_SIZE_DIFF};
use crate::settings::{header_text, update_header};
use crate::text::{
    decimal, join_lines, lines, parse_uint, push_char, spec_join, spec_lines, spec_parse_uint, spec_trim,
    spec_words, split_whitespace, str_eq, trim, usize_to_string, views, contains_char, count_char, count_of,
    split_by, split_char, contains_seq, contains_str, after_last, text_after_last, chars_of, starts_with,
    string_of, spec_lowercase, to_lowercase, plain_line, plain_lines, lemma_lines_of_joined,
};

verus! {

/// The lines, the notes and their count agree with the notes text.
pub open spec fn notes_consistent(g: Globals) -> bool {
    &&& views(g.notes_vec@) == spec_lines(g.notes@)
    &&& g.notes_vec@.len() >= 1
    &&& g.notes_length == g.notes_vec@.len() - 1
}

/// Takes a new notes text: its lines become the note lines and the number
/// of notes is the number of lines after the header. Returns the text.
pub fn update_notes_statics(g: &mut Globals, text: String) -> (r: String)
    requires
        text@.len() > 0,
    ensures
        r@ == text@,
        *final(g) == (Globals {
            notes: text,
            notes_vec: final(g).notes_vec,
            notes_length: final(g).notes_length,
            ..*old(g)
        }),
        notes_consistent(*final(g)),
{
    let v = lines(text.as_str());
    proof {
        crate::text::lemma_lines_nonempty(text@);
    }
    g.notes = text;
    g.notes_length = v.len() - 1;
    g.notes_vec = v;
    g.notes.clone()
}

/// Whether the note lines and the number of notes agree with the notes
/// text (see `notes_consistent`).
pub fn notes_in_step(g: &Globals) -> (r: bool)
    ensures
        r == notes_consistent(*g),
{
    let v = lines(g.notes.as_str());
    if v.len() != g.notes_vec.len() || g.notes_vec.len() < 1 {
        proof {
            if g.notes_vec@.len() >= 1 {
                assert(views(v@).len() != views(g.notes_vec@).len());
            }
        }
        return false;
    }
    if g.notes_length != g.notes_vec.len() - 1 {
        return false;
    }
    let mut i: usize = 0;
    while i < v.len()
        invariant
            i <= v@.len(),
            v@.len() == g.notes_vec@.len(),
            views(v@) == spec_lines(g.notes@),
            forall|j: int| 0 <= j < i ==> v@[j]@ == g.notes_vec@[j]@,
        decreases v@.len() - i,
    {
        if !str_eq(v[i].as_str(), g.notes_vec[i].as_str()) {
            proof {
                if views(g.notes_vec@) == spec_lines(g.notes@) {
                    assert(views(g.notes_vec@)[i as int] == views(v@)[i as int]);
                }
            }
            return false;
        }
        i = i + 1;
    }
    assert(views(g.notes_vec@) =~= views(v@));
    true
}

/// `a / b` rounded up.
pub open spec fn ceil_div(a: nat, b: nat) -> nat {
    if b == 0 {
        0
    } else if a % b == 0 {
        a / b
    } else {
        a / b + 1
    }
}

/// Divides rounding up.
pub fn ceil_div_usize(a: usize, b: usize) -> (r: usize)
    requires
        b > 0,
    ensures
        r == ceil_div(a as nat, b as nat),
{
    if a % b == 0 {
        a / b
    } else {
        proof {
            assert(a / b < a) by (nonlinear_arith)
                requires
                    a % b != 0,
                    b > 0,
            ;
        }
        a / b + 1
    }
}

/// The number of pages: enough pages of `page_size` notes for all notes,
/// and at least one.
pub open spec fn max_page(g: Globals) -> nat {
    let n = ceil_div(g.notes_length as nat, g.page_size as nat);
    if n < 1 {
        1
    } else {
        n
    }
}

/// Gets the number of pages (see `max_page`).
pub fn get_max_page_number(g: &Globals) -> (r: usize)
    requires
        g.page_size > 0,
    ensures
        r == max_page(*g),
{
    let n = ceil_div_usize(g.notes_length, g.page_size);
    if n < 1 {
        1
    } else {
        n
    }
}

/// The page a note is on: its number divided by the page size, rounded up.
pub open spec fn note_page(g: Globals, n: nat) -> nat {
    ceil_div(n, g.page_size as nat)
}

/// Gets the page note `n` is on (see `note_page`).
pub fn get_note_page(g: &Globals, n: usize) -> (r: usize)
    requires
        g.page_size > 0,
    ensures
        r == note_page(*g, n as nat),
{
    ceil_div_usize(n, g.page_size)
}

/// A page number brought into the pages that exist; 0 stays 0 where it is
/// allowed (0 shows something other than a page of notes).
pub open spec fn checked_page(g: Globals, page: nat, allow_zero: bool) -> nat {
    if allow_zero && page == 0 {
        0
    } else {
        let p = if page < max_page(g) { page } else { max_page(g) };
        if p < 1 {
            1
        } else {
            p
        }
    }
}

/// Checks that a page exists (see `checked_page`).
pub fn check_page_number(g: &Globals, page: usize, allow_zero: bool) -> (r: usize)
    requires
        g.page_size > 0,
    ensures
        r == checked_page(*g, page as nat, allow_zero),
{
    if allow_zero && page == 0 {
        return 0;
    }
    let m = get_max_page_number(g);
    let p = if page < m { page } else { m };
    if p < 1 {
        1
    } else {
        p
    }
}

/// A checked page number is 0 only where 0 is allowed and asked for, and
/// otherwise a page that exists; a page that exists is kept as it is; and
/// checking a checked page number again changes nothing.
pub proof fn lemma_checked_page(g: Globals, page: nat, allow_zero: bool)
    ensures
        allow_zero && page == 0 ==> checked_page(g, page, allow_zero) == 0,
        !(allow_zero && page == 0) ==> 1 <= checked_page(g, page, allow_zero) <= max_page(g),
        1 <= page <= max_page(g) ==> checked_page(g, page, allow_zero) == page,
        checked_page(g, checked_page(g, page, allow_zero), allow_zero) == checked_page(g, page, allow_zero),
{
}

/// The first note number on a page.
pub open spec fn page_first(g: Globals, page: nat) -> nat {
    if page > 1 {
        ((page - 1) * g.page_size + 1) as nat
    } else {
        1
    }
}

/// The last note number on a page.
pub open spec fn page_last(g: Globals, page: nat) -> nat {
    let b = page * g.page_size;
    if b < g.notes_length {
        b as nat
    } else {
        g.notes_length as nat
    }
}

/// The numbered notes of a page, in order.
pub open spec fn page_notes(g: Globals, page: nat) -> Seq<(nat, Seq<char>)> {
    if g.notes_length == 0 {
        Seq::empty()
    } else {
        let a = page_first(g, page);
        let b = page_last(g, page);
        Seq::new((b + 1 - a) as nat, |i: int| ((a + i) as nat, g.notes_vec@[a + i]@))
    }
}

/// The numbered notes as plain values.
pub open spec fn numbered_view(v: Seq<(usize, String)>) -> Seq<(nat, Seq<char>)> {
    Seq::new(v.len(), |i: int| (v[i].0 as nat, v[i].1@))
}

/// The notes before an existing page are fewer than all notes.
pub proof fn lemma_page_start_in_range(nl: int, ps: int, page: int)
    requires
        nl > 0,
        ps > 0,
        1 <= page,
        page <= ceil_div(nl as nat, ps as nat),
    ensures
        (page - 1) * ps < nl,
        ceil_div(nl as nat, ps as nat) >= 1,
{
    let q = nl / ps;
    let r = nl % ps;
    assert(nl == ps * q + r && 0 <= r < ps) by (nonlinear_arith)
        requires
            ps > 0,
            q == nl / ps,
            r == nl % ps,
    ;
    if r == 0 {
        assert((page - 1) * ps < nl && q >= 1) by (nonlinear_arith)
            requires
                page <= q,
                page >= 1,
                ps > 0,
                nl == ps * q,
                nl > 0,
        ;
    } else {
        assert((page - 1) * ps < nl) by (nonlinear_arith)
            requires
                page <= q + 1,
                page >= 1,
                ps > 0,
                nl == ps * q + r,
                r > 0,
        ;
    }
}

/// A positive number of notes needs at least one page.
pub proof fn lemma_ceil_div_positive(nl: int, ps: int)
    requires
        nl > 0,
        ps > 0,
    ensures
        ceil_div(nl as nat, ps as nat) >= 1,
{
    let q = nl / ps;
    let r = nl % ps;
    assert(nl == ps * q + r && 0 <= r < ps) by (nonlinear_arith)
        requires
            ps > 0,
            q == nl / ps,
            r == nl % ps,
    ;
    if r == 0 {
        assert(q >= 1) by (nonlinear_arith)
            requires
                nl == ps * q,
                nl > 0,
                ps > 0,
        ;
    }
}

/// Gets the numbered notes of a page (see `page_notes`), for a page that
/// exists.
pub fn get_page_notes(g: &Globals, page: usize) -> (r: Vec<(usize, String)>)
    requires
        notes_consistent(*g),
        g.page_size > 0,
        1 <= page <= max_page(*g),
    ensures
        numbered_view(r@) == page_notes(*g, page as nat),
{
    let notes_length = g.notes_length;
    if notes_length == 0 {
        let r: Vec<(usize, String)> = Vec::new();
        assert(numbered_view(r@) =~= page_notes(*g, page as nat));
        return r;
    }
    let page_size = g.page_size;
    proof {
        lemma_ceil_div_positive(notes_length as int, page_size as int);
        lemma_page_start_in_range(notes_length as int, page_size as int, page as int);
    }
    let a = if page > 1 { (page - 1) * page_size + 1 } else { 1 };
    let b = if page <= notes_length / page_size {
        proof {
            assert(page * page_size <= notes_length) by (nonlinear_arith)
                requires
                    page <= notes_length / page_size,
                    page_size > 0,
            ;
        }
        page * page_size
    } else {
        proof {
            assert(page * page_size >= notes_length) by (nonlinear_arith)
                requires
                    page > notes_length / page_size,
                    page_size > 0,
            ;
        }
        notes_length
    };
    assert(b == page_last(*g, page as nat));
    proof {
        if page > 1 {
            assert((page - 1) * page_size <= page * page_size) by (nonlinear_arith)
                requires
                    page > 1,
            ;
        }
    }
    assert(a <= b + 1);
    let range = g_get_notes_vec_range(g, a, b);
    let mut r: Vec<(usize, String)> = Vec::new();
    let mut i: usize = 0;
    while i < range.len()
        invariant
            i <= range@.len(),
            range@ == g.notes_vec@.subrange(a as int, b + 1),
            a <= b + 1,
            b < g.notes_vec@.len(),
            numbered_view(r@) =~= Seq::new(i as nat, |j: int| ((a + j) as nat, g.notes_vec@[a + j]@)),
        decreases range@.len() - i,
    {
        let ghost prev = numbered_view(r@);
        r.push((a + i, range[i].clone()));
        assert(numbered_view(r@) =~= prev.push(((a + i) as nat, g.notes_vec@[a + i]@)));
        i = i + 1;
    }
    r
}


/// The page to go to from `page` towards the start: none from the first.
pub fn cycle_left(g: &Globals) -> (r: Option<usize>)
    ensures
        g.page <= 1 ==> r is None,
        g.page > 1 ==> r == Some((g.page - 1) as usize),
{
    if g.page <= 1 {
        None
    } else {
        Some(g.page - 1)
    }
}

/// The page to go to from `page` towards the end: none from the last.
pub fn cycle_right(g: &Globals) -> (r: Option<usize>)
    requires
        g.page_size > 0,
        g.page < usize::MAX,
    ensures
        g.page == max_page(*g) ==> r is None,
        g.page != max_page(*g) ==> r == Some((g.page + 1) as usize),
{
    let max_page = get_max_page_number(g);
    if g.page == max_page {
        None
    } else {
        Some(g.page + 1)
    }
}

/// Whether note `n` exists.
pub fn check_line_exists(g: &Globals, n: usize) -> (r: bool)
    ensures
        r == (n > 0 && n <= g.notes_length),
{
    n > 0 && n <= g.notes_length
}

/// A number typed by the user: the word given for the first and the last
/// item, or a number, or 0 for anything else.
pub open spec fn spec_number_answer(ans: Seq<char>, last: nat) -> nat {
    if ans == "first"@ {
        1
    } else if ans == "last"@ {
        last
    } else {
        match spec_parse_uint(ans, usize::MAX as nat) {
            Some(n) => n,
            None => 0,
        }
    }
}

/// Reads a number typed by the user, with `first` and `last` for the first
/// and the last item (see `spec_number_answer`).
pub fn parse_number_answer(ans: &str, last: usize) -> (r: usize)
    ensures
        r == spec_number_answer(ans@, last as nat),
{
    if str_eq(ans, "first") {
        1
    } else if str_eq(ans, "last") {
        last
    } else {
        match parse_uint(ans, usize::MAX) {
            Some(n) => n,
            None => 0,
        }
    }
}

/// Reads a note number, with `first` and `last` for the first and the last
/// note.
pub fn parse_note_ans(g: &Globals, ans: &str) -> (r: usize)
    ensures
        r == spec_number_answer(ans@, g.notes_length as nat),
{
    parse_number_answer(ans, g.notes_length)
}

/// Reads a page number, with `first` and `last` for the first and the last
/// page.
pub fn parse_page_ans(g: &Globals, ans: &str) -> (r: usize)
    requires
        g.page_size > 0,
    ensures
        r == spec_number_answer(ans@, max_page(*g)),
{
    let m = get_max_page_number(g);
    parse_number_answer(ans, m)
}

/// The way a note number is offered to the user: `first`, `last`, or the
/// number.
pub open spec fn spec_expand_note_number(g: Globals, n: nat) -> Seq<char> {
    if n == 1 {
        "first"@
    } else if n == g.notes_length {
        "last"@
    } else {
        decimal(n)
    }
}

/// Writes a note number the way it is offered to the user.
pub fn expand_note_number(g: &Globals, n: usize) -> (r: String)
    ensures
        r@ == spec_expand_note_number(*g, n as nat),
{
    if n == 1 {
        "first".to_string()
    } else if n == g.notes_length {
        "last".to_string()
    } else {
        usize_to_string(n)
    }
}

/// Where the note at `last_edit` is after notes `n1` to `n2` are moved to
/// `dest` (see `spec_move`).
pub open spec fn moved_index(last_edit: nat, n1: nat, n2: nat, dest: nat) -> nat {
    if n1 <= last_edit && last_edit <= n2 {
        if dest < n1 {
            (last_edit - (n1 - dest)) as nat
        } else if dest > n2 {
            (last_edit + (dest - n2)) as nat
        } else {
            last_edit
        }
    } else if dest == last_edit {
        if dest < n1 {
            (last_edit + (n2 - n1) + 1) as nat
        } else if dest > n2 {
            (last_edit - (n2 - n1) - 1) as nat
        } else {
            last_edit
        }
    } else if n1 > last_edit && dest < last_edit {
        (last_edit + (n2 - n1) + 1) as nat
    } else if n2 < last_edit && dest > last_edit {
        (last_edit - (n2 - n1) - 1) as nat
    } else {
        last_edit
    }
}

/// Keeps the last-edited note number on the same note after notes `n1` to
/// `n2` are moved to `dest`.
pub fn fix_last_edit_after_move(g: &mut Globals, n1: usize, n2: usize, dest: usize)
    requires
        n1 <= n2,
    ensures
        *final(g) == (Globals { last_edit: moved_index(old(g).last_edit as nat, n1 as nat, n2 as nat, dest as nat) as usize, ..*old(g) }),
{
    let last_edit = g.last_edit;
    let mut new_last_edit = last_edit;
    if n1 <= last_edit && last_edit <= n2 {
        if dest < n1 {
            new_last_edit = last_edit - (n1 - dest);
        } else if dest > n2 {
            new_last_edit = last_edit + (dest - n2);
        }
    } else if dest == last_edit {
        if dest < n1 {
            new_last_edit = last_edit + (n2 - n1) + 1;
        } else if dest > n2 {
            new_last_edit = last_edit - (n2 - n1) - 1;
        }
    } else if n1 > last_edit && dest < last_edit {
        new_last_edit = last_edit + (n2 - n1) + 1;
    } else if n2 < last_edit && dest > last_edit {
        new_last_edit = last_edit - (n2 - n1) - 1;
    }
    g.last_edit = new_last_edit;
}

/// A numeral is never longer than its number plus one.
pub proof fn lemma_decimal_len(n: nat)
    ensures
        1 <= decimal(n).len() <= n + 1,
    decreases n,
{
    if n >= 10 {
        lemma_decimal_len(n / 10);
    }
}

/// The number of decimal digits of `n`.
pub fn num_digits(n: usize) -> (r: usize)
    ensures
        r == decimal(n as nat).len(),
        r >= 1,
    decreases n,
{
    if n < 10 {
        1
    } else {
        let d = num_digits(n / 10);
        proof {
            lemma_decimal_len((n / 10) as nat);
        }
        d + 1
    }
}


/// What the screen shows next.
pub enum Screen {
    /// The screen stays as it was.
    Stay,
    /// A page of notes.
    Page(usize),
    /// Some numbered notes, with a message under them.
    Notes(Vec<(usize, String)>, String),
}

/// What an action did: the bytes to write if it saved the notes, and the
/// screen to show.
pub struct Step {
    pub save: Option<Result<Vec<u8>, CryptoError>>,
    pub screen: Screen,
}

/// An action that changed nothing and leaves the screen as it was.
pub open spec fn unchanged_step(old: Globals, new: Globals, r: Step) -> bool {
    &&& new == old
    &&& r.save is None
    &&& r.screen is Stay
}

/// A message on an otherwise empty screen.
pub fn show_message(message: &str) -> (r: Screen)
    ensures
        r matches Screen::Notes(v, m) && v@.len() == 0 && m@ == message@,
{
    Screen::Notes(Vec::new(), message.to_string())
}

/// The notes text with a new note added: at the end, or right after the
/// header.
pub open spec fn added_text(g: Globals, note: Seq<char>, prepend: bool) -> Seq<char> {
    if prepend {
        g.notes_vec@[0]@ + seq!['\n'] + note + seq!['\n'] + spec_join(views(g.notes_vec@).skip(1))
    } else {
        g.notes@ + seq!['\n'] + note
    }
}

/// What adding a note did: nothing for a blank note; otherwise the note
/// was added and saved at the end, showing the last page, or at the start,
/// showing the first, and it became the last-edited note.
pub open spec fn note_added(old: Globals, new: Globals, note: Seq<char>, prepend: bool, r: Step) -> bool {
    if spec_trim(note).len() == 0 {
        unchanged_step(old, new, r)
    } else {
        r.save matches Some(res) && {
            let text = added_text(old, note, prepend);
            ||| prepend && saved(old, Globals { last_edit: old.last_edit, ..new }, res, text) && new.last_edit == 1
                && (r.screen matches Screen::Page(p) && p == 1)
            ||| !prepend && saved(old, Globals { last_edit: old.last_edit, ..new }, res, text)
                && new.last_edit == new.notes_length && (r.screen matches Screen::Page(p)
                && (new.page_size > 0 ==> p == max_page(new)))
        }
    }
}

/// Adds a note (see `note_added`).
pub fn add_note(g: &mut Globals, prepend: bool, note: &str) -> (r: Step)
    requires
        notes_consistent(*old(g)),
    ensures
        note_added(*old(g), *final(g), note@, prepend, r),
{
    let t = trim(note);
    if t.as_str().is_empty() {
        return Step { save: None, screen: Screen::Stay };
    }
    if prepend {
        let mut rest: Vec<String> = Vec::new();
        let mut i: usize = 1;
        while i < g.notes_vec.len()
            invariant
                1 <= i <= g.notes_vec@.len(),
                rest@ == g.notes_vec@.subrange(1, i as int),
            decreases g.notes_vec@.len() - i,
        {
            rest.push(g.notes_vec[i].clone());
            i = i + 1;
        }
        assert(views(rest@) =~= views(g.notes_vec@).skip(1));
        let mut new_text = g.notes_vec[0].clone();
        push_char(&mut new_text, '\n');
        new_text.append(note);
        push_char(&mut new_text, '\n');
        new_text.append(join_lines(&rest).as_str());
        assert(new_text@ == added_text(*old(g), note@, true));
        let save = update_file(g, new_text);
        let ghost mid = *g;
        g.last_edit = 1;
        assert(Globals { last_edit: old(g).last_edit, ..*g } == mid);
        Step { save: Some(save), screen: Screen::Page(1) }
    } else {
        let mut new_text = g.notes.clone();
        push_char(&mut new_text, '\n');
        new_text.append(note);
        assert(new_text@ == added_text(*old(g), note@, false));
        let save = update_file(g, new_text);
        let ghost mid = *g;
        g.last_edit = g.notes_length;
        assert(Globals { last_edit: old(g).last_edit, ..*g } == mid);
        let page = if g.page_size > 0 { get_max_page_number(g) } else { 1 };
        Step { save: Some(save), screen: Screen::Page(page) }
    }
}

/// The note number offered when the user edits a note: the last edited
/// one, if any.
pub fn edit_note_suggestion(g: &Globals) -> (r: String)
    ensures
        g.last_edit == 0 ==> r@.len() == 0,
        g.last_edit != 0 ==> r@ == spec_expand_note_number(*g, g.last_edit as nat),
{
    if g.last_edit == 0 {
        String::new()
    } else {
        expand_note_number(g, g.last_edit)
    }
}

/// What an edit of note `n` to `edited` did: nothing for a note that does
/// not exist or an empty text; otherwise the note was replaced and saved,
/// it became the last-edited note, and its page is shown.
pub open spec fn note_edited(old: Globals, new: Globals, n: nat, edited: Seq<char>, r: Step) -> bool {
    if !(0 < n <= old.notes_length) || edited.len() == 0 {
        unchanged_step(old, new, r)
    } else {
        &&& (r.save matches Some(res) && saved(
            Globals { last_edit: n as usize, ..old },
            new,
            res,
            spec_join(views(old.notes_vec@).update(n as int, edited)),
        ))
        &&& (r.screen matches Screen::Page(p) && p == note_page(old, n))
    }
}

/// Replaces note `n` with `edited` (see `note_edited`).
pub fn edit_note(g: &mut Globals, n: usize, edited: &str) -> (r: Step)
    requires
        notes_consistent(*old(g)),
        old(g).page_size > 0,
    ensures
        note_edited(*old(g), *final(g), n as nat, edited@, r),
{
    if !check_line_exists(g, n) || edited.is_empty() {
        return Step { save: None, screen: Screen::Stay };
    }
    g.last_edit = n;
    let save = replace_line(g, n, edited.to_string());
    let page = get_note_page(g, n);
    Step { save: Some(save), screen: Screen::Page(page) }
}

/// The word at `i` of a list of words, or `0` where there is none.
pub open spec fn word_or_zero(words: Seq<Seq<char>>, i: int) -> Seq<char> {
    if 0 <= i < words.len() {
        words[i]
    } else {
        "0"@
    }
}

/// The word at `i`, or `0` where there is none.
pub fn get_word_or_zero(words: &Vec<String>, i: usize) -> (r: String)
    ensures
        r@ == word_or_zero(views(words@), i as int),
{
    if i < words.len() {
        words[i].clone()
    } else {
        "0".to_string()
    }
}

/// The last-edited note after notes `n1` and `n2` trade places.
pub open spec fn swapped_index(last_edit: nat, n1: nat, n2: nat) -> nat {
    if last_edit == n1 {
        n2
    } else if last_edit == n2 {
        n1
    } else {
        last_edit
    }
}

/// The two notes a swap names: two numbers separated by white space
/// (`first` and `last` allowed), both of existing notes.
pub open spec fn swap_pair(g: Globals, ans: Seq<char>) -> Option<(nat, nat)> {
    let words = spec_words(ans);
    let n1 = spec_number_answer(word_or_zero(words, 0), g.notes_length as nat);
    let n2 = spec_number_answer(word_or_zero(words, 1), g.notes_length as nat);
    if ans.len() > 0 && 0 < n1 <= g.notes_length && 0 < n2 <= g.notes_length {
        Some((n1, n2))
    } else {
        None
    }
}

/// What a swap did: nothing where the answer names no two notes;
/// otherwise the two notes traded places and were saved, and the
/// last-edited note number moved with its note.
pub open spec fn notes_swapped(old: Globals, new: Globals, ans: Seq<char>, r: Step) -> bool {
    match swap_pair(old, ans) {
        None => unchanged_step(old, new, r),
        Some((n1, n2)) => (r.save matches Some(res) && saved(
            Globals { last_edit: swapped_index(old.last_edit as nat, n1, n2) as usize, ..old },
            new,
            res,
            spec_join(views(old.notes_vec@).update(n1 as int, old.notes_vec@[n2 as int]@).update(
                n2 as int,
                old.notes_vec@[n1 as int]@,
            )),
        ) && r.screen is Stay),
    }
}

/// Swaps two notes (see `notes_swapped`).
pub fn swap_notes(g: &mut Globals, ans: &str) -> (r: Step)
    requires
        notes_consistent(*old(g)),
    ensures
        notes_swapped(*old(g), *final(g), ans@, r),
{
    if ans.is_empty() {
        return Step { save: None, screen: Screen::Stay };
    }
    let words = split_whitespace(ans);
    let w1 = get_word_or_zero(&words, 0);
    let w2 = get_word_or_zero(&words, 1);
    let n1 = parse_note_ans(g, w1.as_str());
    let n2 = parse_note_ans(g, w2.as_str());
    if !check_line_exists(g, n1) || !check_line_exists(g, n2) {
        return Step { save: None, screen: Screen::Stay };
    }
    let last_edit = g.last_edit;
    if last_edit == n1 {
        g.last_edit = n2;
    } else if last_edit == n2 {
        g.last_edit = n1;
    }
    let save = swap_lines(g, n1, n2);
    Step { save: Some(save), screen: Screen::Stay }
}


/// The last word of a list, or `0` where there is none.
pub open spec fn last_word_or_zero(words: Seq<Seq<char>>) -> Seq<char> {
    if words.len() > 0 {
        words.last()
    } else {
        "0"@
    }
}

/// The block of notes a move names: `n1-n2 ...` (the end clamped to the
/// last note) or a single note `n ...`; `None` where it names none.
pub open spec fn move_block(g: Globals, ans: Seq<char>) -> Option<(nat, nat)> {
    let max = g.notes_length as nat;
    if ans.contains('-') {
        if count_char(ans, '-') > 1 {
            None
        } else {
            let parts = split_by(ans, '-');
            let n1 = spec_number_answer(spec_trim(parts[0]), max);
            let n2 = spec_number_answer(word_or_zero(spec_words(spec_trim(parts[1])), 0), max);
            let n2 = if n2 > max { max } else { n2 };
            if n1 == 0 || n2 == 0 || n1 >= n2 {
                None
            } else {
                Some((n1, n2))
            }
        }
    } else {
        let n1 = spec_number_answer(word_or_zero(spec_words(ans), 0), max);
        if n1 == 0 || n1 > max {
            None
        } else {
            Some((n1, n1))
        }
    }
}

/// The number of steps after the last `up` or `down`, or 0.
pub open spec fn steps_after(ans: Seq<char>, word: Seq<char>) -> nat {
    match spec_parse_uint(spec_trim(after_last(ans, word)), usize::MAX as nat) {
        Some(n) => n,
        None => 0,
    }
}

/// Where a move puts the block `n1..=n2`: `up k` or `down k` steps, or the
/// note number given last; `None` where that is no place to move to.
pub open spec fn move_dest(g: Globals, ans: Seq<char>, n1: nat, n2: nat) -> Option<nat> {
    let max = g.notes_length as nat;
    let dest = if contains_seq(ans, "up"@) {
        let steps = steps_after(ans, "up"@);
        if steps == 0 || steps >= n1 {
            None
        } else {
            Some((n1 - steps) as nat)
        }
    } else if contains_seq(ans, "down"@) {
        let steps = steps_after(ans, "down"@);
        if steps == 0 || n2 + steps > max {
            None
        } else {
            Some(n2 + steps)
        }
    } else {
        Some(spec_number_answer(last_word_or_zero(spec_words(ans)), max))
    };
    match dest {
        None => None,
        Some(d) => if d == 0 || d > max || (n1 <= d && d <= n2) {
            None
        } else {
            Some(d)
        },
    }
}

/// The move an answer asks for: a block and where it goes.
pub open spec fn move_request(g: Globals, ans: Seq<char>) -> Option<(nat, nat, nat)> {
    if ans.len() == 0 {
        None
    } else {
        match move_block(g, ans) {
            None => None,
            Some((n1, n2)) => match move_dest(g, ans, n1, n2) {
                None => None,
                Some(d) => Some((n1, n2, d)),
            },
        }
    }
}

/// Reads the block a move names (see `move_block`).
pub fn parse_move_block(g: &Globals, ans: &str) -> (r: Option<(usize, usize)>)
    ensures
        match r {
            Some((a, b)) => move_block(*g, ans@) == Some((a as nat, b as nat)),
            None => move_block(*g, ans@) is None,
        },
{
    let max = g.notes_length;
    if contains_char(ans, '-') {
        if count_of(ans, '-') > 1 {
            return None;
        }
        let parts = split_char(ans, '-');
        proof {
            crate::text::lemma_split_by_count(ans@, '-');
        }
        let left = trim(parts[0].as_str());
        let n1 = parse_note_ans(g, left.as_str());
        let right = trim(parts[1].as_str());
        let right_words = split_whitespace(right.as_str());
        let w = get_word_or_zero(&right_words, 0);
        let mut n2 = parse_note_ans(g, w.as_str());
        if n2 > max {
            n2 = max;
        }
        if n1 == 0 || n2 == 0 || n1 >= n2 {
            return None;
        }
        Some((n1, n2))
    } else {
        let words = split_whitespace(ans);
        let w = get_word_or_zero(&words, 0);
        let n1 = parse_note_ans(g, w.as_str());
        if n1 == 0 || !check_line_exists(g, n1) {
            return None;
        }
        Some((n1, n1))
    }
}

/// Reads the number of steps after the last `word` (see `steps_after`).
pub fn parse_steps(ans: &str, word: &str) -> (r: usize)
    requires
        word@.len() > 0,
    ensures
        r == steps_after(ans@, word@),
{
    let after = text_after_last(ans, word);
    let t = trim(after.as_str());
    match parse_uint(t.as_str(), usize::MAX) {
        Some(n) => n,
        None => 0,
    }
}

/// Reads where a move puts the block (see `move_dest`).
pub fn parse_move_dest(g: &Globals, ans: &str, n1: usize, n2: usize) -> (r: Option<usize>)
    requires
        n1 <= n2 <= g.notes_length,
    ensures
        match r {
            Some(d) => move_dest(*g, ans@, n1 as nat, n2 as nat) == Some(d as nat),
            None => move_dest(*g, ans@, n1 as nat, n2 as nat) is None,
        },
{
    let max = g.notes_length;
    let dest = if contains_str(ans, "up") {
        proof {
            reveal_strlit("up");
        }
        let steps = parse_steps(ans, "up");
        if steps == 0 || steps >= n1 {
            return None;
        }
        n1 - steps
    } else if contains_str(ans, "down") {
        proof {
            reveal_strlit("down");
        }
        let steps = parse_steps(ans, "down");
        if steps == 0 || steps > max - n2 {
            return None;
        }
        n2 + steps
    } else {
        let words = split_whitespace(ans);
        let w = if words.len() > 0 { words[words.len() - 1].clone() } else { "0".to_string() };
        parse_note_ans(g, w.as_str())
    };
    if dest == 0 || dest > max || (n1 <= dest && dest <= n2) {
        return None;
    }
    Some(dest)
}

/// What a move did: nothing where the answer names no move; otherwise the
/// block was moved and saved, the last-edited note number followed its
/// note, and the page of the destination is shown.
pub open spec fn notes_moved(old: Globals, new: Globals, ans: Seq<char>, r: Step) -> bool {
    match move_request(old, ans) {
        None => unchanged_step(old, new, r),
        Some((n1, n2, d)) => (r.save matches Some(res) && saved(
            old,
            Globals { last_edit: old.last_edit, ..new },
            res,
            spec_join(spec_move(views(old.notes_vec@), n1 as int, n2 as int, d as int)),
        ) && new.last_edit == moved_index(old.last_edit as nat, n1, n2, d) && (r.screen matches Screen::Page(p)
            && p == note_page(old, d))),
    }
}

/// Moves a note or a block of notes: `n1 n2` moves note `n1` to `n2`,
/// `n1-n2 d` moves a block to `d`, `n up k` and `n down k` move by steps;
/// the last-edited note number follows its note, and the page of the
/// destination is shown. Nothing happens for an answer that names no move.
pub fn move_notes(g: &mut Globals, ans: &str) -> (r: Step)
    requires
        notes_consistent(*old(g)),
        old(g).page_size > 0,
    ensures
        notes_moved(*old(g), *final(g), ans@, r),
{
    if ans.is_empty() {
        return Step { save: None, screen: Screen::Stay };
    }
    let (n1, n2) = match parse_move_block(g, ans) {
        Some(b) => b,
        None => return Step { save: None, screen: Screen::Stay },
    };
    let dest = match parse_move_dest(g, ans, n1, n2) {
        Some(d) => d,
        None => return Step { save: None, screen: Screen::Stay },
    };
    let save = move_lines(g, n1, n2, dest);
    let ghost mid = *g;
    fix_last_edit_after_move(g, n1, n2, dest);
    let page = get_note_page(g, dest);
    Step { save: Some(save), screen: Screen::Page(page) }
}


/// The message shown when nothing was deleted.
pub open spec fn nothing_deleted_msg() -> Seq<char> {
    "< No Messages Were Deleted >"@
}

/// The message shown for a pattern that is no regular expression.
pub open spec fn invalid_regex_msg() -> Seq<char> {
    "< Invalid Regex | (Enter) Return >"@
}

/// The pattern a `re:` answer stands for: case-insensitive, trimmed.
pub open spec fn case_insensitive_pattern(ans: Seq<char>) -> Seq<char> {
    spec_trim("(?i)"@ + ans.skip(3))
}

/// The numbers of the notes (after the header) that `pattern` matches.
pub open spec fn matching_notes(lines: Seq<Seq<char>>, pattern: Seq<char>) -> Seq<nat>
    decreases lines.len(),
{
    if lines.len() <= 1 {
        Seq::empty()
    } else {
        let prev = matching_notes(lines.drop_last(), pattern);
        if regex_matches(pattern, lines.last()) {
            prev.push((lines.len() - 1) as nat)
        } else {
            prev
        }
    }
}

/// The numbers of a list, each read as a note number.
pub open spec fn listed_numbers(parts: Seq<Seq<char>>, max: nat) -> Seq<nat> {
    Seq::new(parts.len(), |i: int| spec_number_answer(spec_trim(parts[i]), max))
}

/// The numbers from `a` to `b`.
pub open spec fn number_range(a: nat, b: nat) -> Seq<nat> {
    Seq::new((b + 1 - a) as nat, |i: int| (a + i) as nat)
}

/// The numbers of notes that exist, in order.
pub open spec fn existing_numbers(nums: Seq<nat>, max: nat) -> Seq<nat>
    decreases nums.len(),
{
    if nums.len() == 0 {
        nums
    } else {
        let prev = existing_numbers(nums.drop_last(), max);
        if 0 < nums.last() <= max {
            prev.push(nums.last())
        } else {
            prev
        }
    }
}

/// The notes a delete answer names before the ones that do not exist are
/// dropped: a `re:` pattern, a comma-separated list, a range `a-b` (its end
/// clamped to the last note), or one number; an error message for an
/// invalid pattern or range; `None` for no answer.
pub open spec fn delete_request(g: Globals, ans: Seq<char>) -> Option<Result<Seq<nat>, Seq<char>>> {
    let max = g.notes_length as nat;
    if ans.len() == 0 {
        None
    } else if ans.len() >= 3 && ans.subrange(0, 3) == "re:"@ {
        let pattern = case_insensitive_pattern(ans);
        if !regex_compiles(pattern) {
            Some(Err(invalid_regex_msg()))
        } else {
            Some(Ok(matching_notes(views(g.notes_vec@), pattern)))
        }
    } else if ans.contains(',') {
        Some(Ok(listed_numbers(split_by(ans, ','), max)))
    } else if ans.contains('-') {
        if count_char(ans, '-') > 1 {
            Some(Err(nothing_deleted_msg()))
        } else {
            let parts = split_by(ans, '-');
            let a = spec_number_answer(spec_trim(parts[0]), max);
            let b = spec_number_answer(spec_trim(parts[1]), max);
            let b = if b > max { max } else { b };
            if a == 0 || b == 0 || a >= b {
                Some(Err(nothing_deleted_msg()))
            } else {
                Some(Ok(number_range(a, b)))
            }
        }
    } else {
        Some(Ok(seq![spec_number_answer(ans, max)]))
    }
}

/// What a delete answer leads to.
pub enum DeleteChoice {
    /// Nothing was asked.
    Nothing,
    /// Nothing can be deleted; the message says why.
    Message(String),
    /// The numbers of the notes to delete, all of which exist.
    Numbers(Vec<usize>),
}

/// The numbers as plain values.
pub open spec fn nums_view(v: Seq<usize>) -> Seq<nat> {
    Seq::new(v.len(), |i: int| v[i] as nat)
}

/// Keeps the numbers of notes that exist.
pub fn keep_existing(g: &Globals, nums: Vec<usize>) -> (r: Vec<usize>)
    ensures
        nums_view(r@) == existing_numbers(nums_view(nums@), g.notes_length as nat),
{
    let mut r: Vec<usize> = Vec::new();
    let mut i: usize = 0;
    while i < nums.len()
        invariant
            i <= nums@.len(),
            nums_view(r@) == existing_numbers(nums_view(nums@.subrange(0, i as int)), g.notes_length as nat),
        decreases nums@.len() - i,
    {
        let ghost prev = nums_view(r@);
        assert(nums_view(nums@.subrange(0, i + 1)).drop_last() =~= nums_view(nums@.subrange(0, i as int)));
        if check_line_exists(g, nums[i]) {
            r.push(nums[i]);
            assert(nums_view(r@) =~= prev.push(nums@[i as int] as nat));
        }
        i = i + 1;
    }
    assert(nums@.subrange(0, i as int) =~= nums@);
    r
}

/// Reads which notes a delete answer names (see `delete_request`), keeping
/// only notes that exist.
pub fn delete_notes_numbers(g: &Globals, ans: &str) -> (r: DeleteChoice)
    requires
        notes_consistent(*g),
    ensures
        match delete_request(*g, ans@) {
            None => r is Nothing,
            Some(Err(m)) => r matches DeleteChoice::Message(s) && s@ == m,
            Some(Ok(nums)) => r matches DeleteChoice::Numbers(v) && nums_view(v@) == existing_numbers(
                nums,
                g.notes_length as nat,
            ),
        },
{
    let max = g.notes_length;
    if ans.is_empty() {
        return DeleteChoice::Nothing;
    }
    let mut numbers: Vec<usize> = Vec::new();
    if starts_with(ans, "re:") {
        proof {
            reveal_strlit("re:");
        }
        let v = chars_of(ans);
        let rest = string_of(&v, 3, v.len());
        let mut p = "(?i)".to_string();
        p.append(rest.as_str());
        let pattern = trim(p.as_str());
        assert(pattern@ == case_insensitive_pattern(ans@)) by {
            assert(rest@ =~= ans@.skip(3));
        }
        if !regex_valid(pattern.as_str()) {
            return DeleteChoice::Message("< Invalid Regex | (Enter) Return >".to_string());
        }
        let mut i: usize = 1;
        while i < g.notes_vec.len()
            invariant
                1 <= i <= g.notes_vec@.len(),
                regex_compiles(pattern@),
                nums_view(numbers@) == matching_notes(views(g.notes_vec@.subrange(0, i as int)), pattern@),
            decreases g.notes_vec@.len() - i,
        {
            let ghost prev = nums_view(numbers@);
            assert(views(g.notes_vec@.subrange(0, i + 1)).drop_last() =~= views(g.notes_vec@.subrange(0, i as int)));
            if regex_is_match(pattern.as_str(), g.notes_vec[i].as_str()) {
                numbers.push(i);
                assert(nums_view(numbers@) =~= prev.push(i as nat));
            }
            i = i + 1;
        }
        assert(g.notes_vec@.subrange(0, i as int) =~= g.notes_vec@);
    } else if contains_char(ans, ',') {
        let parts = split_char(ans, ',');
        let mut i: usize = 0;
        while i < parts.len()
            invariant
                i <= parts@.len(),
                max == g.notes_length,
                views(parts@) == split_by(ans@, ','),
                nums_view(numbers@) =~= listed_numbers(views(parts@), max as nat).subrange(0, i as int),
            decreases parts@.len() - i,
        {
            let ghost prev = nums_view(numbers@);
            let t = trim(parts[i].as_str());
            let n = parse_note_ans(g, t.as_str());
            numbers.push(n);
            assert(views(parts@)[i as int] == parts@[i as int]@);
            assert(nums_view(numbers@) =~= prev.push(n as nat));
            i = i + 1;
        }
        assert(listed_numbers(views(parts@), max as nat).subrange(0, i as int) =~= listed_numbers(views(parts@), max as nat));
    } else if contains_char(ans, '-') {
        if count_of(ans, '-') > 1 {
            return DeleteChoice::Message("< No Messages Were Deleted >".to_string());
        }
        let parts = split_char(ans, '-');
        proof {
            crate::text::lemma_split_by_count(ans@, '-');
        }
        let a = parse_note_ans(g, trim(parts[0].as_str()).as_str());
        let mut b = parse_note_ans(g, trim(parts[1].as_str()).as_str());
        if a == 0 || b == 0 {
            return DeleteChoice::Message("< No Messages Were Deleted >".to_string());
        }
        if b > max {
            b = max;
        }
        if a >= b {
            return DeleteChoice::Message("< No Messages Were Deleted >".to_string());
        }
        let mut k = a;
        assert(b < g.notes_vec.len());
        while k <= b
            invariant
                a <= k <= b + 1,
                b <= max,
                b < g.notes_vec.len(),
                nums_view(numbers@) =~= number_range(a as nat, b as nat).subrange(0, (k - a) as int),
            decreases b + 1 - k,
        {
            let ghost prev = nums_view(numbers@);
            numbers.push(k);
            assert(nums_view(numbers@) =~= prev.push(k as nat));
            k = k + 1;
        }
        assert(number_range(a as nat, b as nat).subrange(0, (k - a) as int) =~= number_range(a as nat, b as nat));
    } else {
        numbers.push(parse_note_ans(g, ans));
        assert(nums_view(numbers@) =~= seq![spec_number_answer(ans@, max as nat)]);
    }
    let kept = keep_existing(g, numbers);
    DeleteChoice::Numbers(kept)
}

/// The question asked before deleting five notes or more.
pub open spec fn delete_question(count: nat) -> Option<Seq<char>> {
    if count >= 5 {
        Some("Delete "@ + decimal(count) + " notes?"@)
    } else {
        None
    }
}

/// Asks to confirm a delete of five notes or more (see `delete_question`).
pub fn confirm_delete(numbers: &Vec<usize>) -> (r: Option<String>)
    ensures
        match r {
            Some(q) => delete_question(numbers@.len() as nat) == Some(q@),
            None => delete_question(numbers@.len() as nat) is None,
        },
{
    if numbers.len() >= 5 {
        let mut q = "Delete ".to_string();
        q.append(usize_to_string(numbers.len()).as_str());
        q.append(" notes?");
        Some(q)
    } else {
        None
    }
}

/// What a delete did: a message when no numbers were given; otherwise
/// the lines with those numbers (never the header) were dropped and the
/// rest saved, and the last-edited note number was cleared if its note
/// went.
pub open spec fn notes_deleted(old: Globals, new: Globals, numbers: Seq<usize>, r: Step) -> bool {
    if numbers.len() == 0 {
        &&& new == old
        &&& r.save is None
        &&& (r.screen matches Screen::Notes(v, m) && v@.len() == 0 && m@ == nothing_deleted_msg())
    } else {
        &&& (r.save matches Some(res) && saved(
            Globals { last_edit: if numbers.contains(old.last_edit) { 0 } else { old.last_edit }, ..old },
            new,
            res,
            spec_join(kept_lines(views(old.notes_vec@), numbers)),
        ))
        &&& r.screen is Stay
    }
}

/// Deletes the notes numbered in `numbers` (see `notes_deleted`).
pub fn delete_notes(g: &mut Globals, numbers: Vec<usize>) -> (r: Step)
    ensures
        notes_deleted(*old(g), *final(g), numbers@, r),
{
    if numbers.len() == 0 {
        return Step { save: None, screen: show_message("< No Messages Were Deleted >") };
    }
    let last_edit = g.last_edit;
    if contains_number(&numbers, last_edit) {
        g.last_edit = 0;
    }
    let save = delete_lines(g, numbers);
    Step { save: Some(save), screen: Screen::Stay }
}


/// The numbered notes (after the header) whose lower-case text contains
/// `filter`, or that `pattern` matches.
pub open spec fn found_notes(lines: Seq<Seq<char>>, filter: Seq<char>, regex: bool) -> Seq<(nat, Seq<char>)>
    decreases lines.len(),
{
    if lines.len() <= 1 {
        Seq::empty()
    } else {
        let prev = found_notes(lines.drop_last(), filter, regex);
        let line = lines.last();
        let hit = if regex {
            regex_matches(filter, line)
        } else {
            contains_seq(spec_lowercase(line), filter)
        };
        if hit {
            prev.push(((lines.len() - 1) as nat, line))
        } else {
            prev
        }
    }
}

/// How a filter is shown in messages: in the accent color.
pub open spec fn filter_info(g: Globals, filter: Seq<char>) -> Seq<char> {
    spec_color(g, 3) + filter + spec_color(g, 2) + " >"@
}

/// What a search finds: `None` for an invalid pattern, otherwise the
/// numbered notes found. A `re:` filter is a case-insensitive regular
/// expression; any other filter is looked for, in lower case, in the
/// lower-case text of each note.
pub open spec fn search(g: Globals, filter: Seq<char>) -> Option<Seq<(nat, Seq<char>)>> {
    if filter.len() >= 3 && filter.subrange(0, 3) == "re:"@ {
        let pattern = case_insensitive_pattern(filter);
        if !regex_compiles(pattern) {
            None
        } else {
            Some(found_notes(views(g.notes_vec@), pattern, true))
        }
    } else {
        Some(found_notes(views(g.notes_vec@), spec_lowercase(filter), false))
    }
}

/// Looks for notes matching a filter (see `search`); the filter is the
/// answer in lower case. Found notes are kept to be shown five at a time
/// and the first of them are shown; otherwise a message says why nothing
/// is shown.
pub fn find_notes(g: &mut Globals, answer: &str) -> (r: Screen)
    requires
        notes_consistent(*old(g)),
    ensures
        ({
            let filter = spec_lowercase(answer@);
            &&& filter.len() == 0 ==> *final(g) == *old(g) && r is Stay
            &&& filter.len() > 0 ==> match search(*old(g), filter) {
                None => *final(g) == *old(g) && (r matches Screen::Notes(v, m) && v@.len() == 0 && m@
                    == "< Invalid Regex: "@ + filter_info(*old(g), filter)),
                Some(f) => if f.len() == 0 {
                    *final(g) == *old(g) && (r matches Screen::Notes(v, m) && v@.len() == 0 && m@
                        == "< No Results for "@ + filter_info(*old(g), filter))
                } else {
                    exists|mid: Globals| {
                        &&& mid == Globals {
                            last_find: mid.last_find,
                            found: mid.found,
                            found_length: f.len() as usize,
                            mode: mid.mode,
                            ..*old(g)
                        }
                        &&& mid.last_find@ == filter
                        &&& mid.mode@ == "found"@
                        &&& numbered_view(mid.found@) == f
                        &&& next_found_result(mid, *final(g), r)
                    }
                },
            }
        }),
{
    let filter = to_lowercase(answer);
    if filter.as_str().is_empty() {
        return Screen::Stay;
    }
    let mut info = get_color(g, 3);
    info.append(filter.as_str());
    info.append(get_color(g, 2).as_str());
    info.append(" >");
    let mut found: Vec<(usize, String)> = Vec::new();
    if starts_with(filter.as_str(), "re:") {
        proof {
            reveal_strlit("re:");
        }
        let v = chars_of(filter.as_str());
        let rest = string_of(&v, 3, v.len());
        let mut p = "(?i)".to_string();
        p.append(rest.as_str());
        let pattern = trim(p.as_str());
        assert(pattern@ == case_insensitive_pattern(filter@)) by {
            assert(rest@ =~= filter@.skip(3));
        }
        if !regex_valid(pattern.as_str()) {
            let mut m = "< Invalid Regex: ".to_string();
            m.append(info.as_str());
            return show_message(m.as_str());
        }
        let mut i: usize = 1;
        while i < g.notes_vec.len()
            invariant
                1 <= i <= g.notes_vec@.len(),
                regex_compiles(pattern@),
                numbered_view(found@) == found_notes(views(g.notes_vec@.subrange(0, i as int)), pattern@, true),
            decreases g.notes_vec@.len() - i,
        {
            let ghost prev = numbered_view(found@);
            assert(views(g.notes_vec@.subrange(0, i + 1)).drop_last() =~= views(g.notes_vec@.subrange(0, i as int)));
            if regex_is_match(pattern.as_str(), g.notes_vec[i].as_str()) {
                found.push((i, g.notes_vec[i].clone()));
                assert(numbered_view(found@) =~= prev.push((i as nat, g.notes_vec@[i as int]@)));
            }
            i = i + 1;
        }
        assert(g.notes_vec@.subrange(0, i as int) =~= g.notes_vec@);
    } else {
        let ifilter = to_lowercase(filter.as_str());
        let fchars = chars_of(ifilter.as_str());
        let mut i: usize = 1;
        while i < g.notes_vec.len()
            invariant
                1 <= i <= g.notes_vec@.len(),
                fchars@ == spec_lowercase(filter@),
                numbered_view(found@) == found_notes(views(g.notes_vec@.subrange(0, i as int)), spec_lowercase(filter@), false),
            decreases g.notes_vec@.len() - i,
        {
            let ghost prev = numbered_view(found@);
            assert(views(g.notes_vec@.subrange(0, i + 1)).drop_last() =~= views(g.notes_vec@.subrange(0, i as int)));
            let low = to_lowercase(g.notes_vec[i].as_str());
            let lchars = chars_of(low.as_str());
            if crate::text::contains_chars(&lchars, &fchars) {
                found.push((i, g.notes_vec[i].clone()));
                assert(numbered_view(found@) =~= prev.push((i as nat, g.notes_vec@[i as int]@)));
            }
            i = i + 1;
        }
        assert(g.notes_vec@.subrange(0, i as int) =~= g.notes_vec@);
    }
    if found.len() == 0 {
        let mut m = "< No Results for ".to_string();
        m.append(info.as_str());
        return show_message(m.as_str());
    }
    g.last_find = filter;
    g_set_found(g, found);
    g.mode = "found".to_string();
    let ghost mid = *g;
    let r = next_found(g);
    assert(next_found_result(mid, *g, r));
    r
}

/// What showing the next found notes does (see `next_found`).
pub open spec fn next_found_result(old: Globals, new: Globals, r: Screen) -> bool {
    let k = if old.found@.len() < 5 { old.found@.len() as int } else { 5 };
    let shown = old.found@.take(k);
    let remaining = old.found@.len() - k;
    let len = old.found_length as nat;
    let tip = if remaining > 0 { " | (Enter) More"@ } else { Seq::<char>::empty() };
    let info = spec_color(old, 3) + old.last_find@ + spec_color(old, 2) + tip + " >"@;
    let head = if len == 1 {
        "< 1 Result for "@
    } else if len <= 10 {
        "< "@ + decimal(len) + " Results for "@
    } else {
        "< "@ + decimal((len - remaining) as nat) + "/"@ + decimal(len) + " Results for "@
    };
    &&& new == (Globals { found: new.found, ..old })
    &&& new.found@ == old.found@.skip(k)
    &&& shown.len() == 0 ==> (r matches Screen::Page(p) && p == old.page)
    &&& shown.len() > 0 ==> (r matches Screen::Notes(v, m) && v@ == shown && m@ == head + info)
}

/// Shows the next (up to five) found notes with a message that counts
/// them; the current page again when none are left.
pub fn next_found(g: &mut Globals) -> (r: Screen)
    requires
        old(g).found@.len() <= old(g).found_length,
    ensures
        next_found_result(*old(g), *final(g), r),
{
    let ghost g0 = *g;
    let found = g_get_found_next(g, 5);
    let remaining = g.found.len();
    if found.len() == 0 {
        return Screen::Page(g.page);
    }
    let len = g.found_length;
    let mut info = get_color(g, 3);
    info.append(g.last_find.as_str());
    info.append(get_color(g, 2).as_str());
    if remaining > 0 {
        info.append(" | (Enter) More");
    }
    info.append(" >");
    let diff = len - remaining;
    let mut message = if len == 1 {
        "< 1 Result for ".to_string()
    } else if len <= 10 {
        let mut m = "< ".to_string();
        m.append(usize_to_string(len).as_str());
        m.append(" Results for ");
        m
    } else {
        let mut m = "< ".to_string();
        m.append(usize_to_string(diff).as_str());
        m.append("/");
        m.append(usize_to_string(len).as_str());
        m.append(" Results for ");
        m
    };
    message.append(info.as_str());
    proof {
        if remaining == 0 {
            assert(info@ =~= spec_color(g0, 3) + g0.last_find@ + spec_color(g0, 2) + Seq::<char>::empty() + " >"@);
        }
    }
    Screen::Notes(found, message)
}

/// What the mode's action does: more found notes while searching (see
/// `next_found_result`), the current page again otherwise.
pub open spec fn mode_acted(old: Globals, new: Globals, r: Screen) -> bool {
    if old.mode@ == "found"@ {
        next_found_result(old, new, r)
    } else {
        new == old && (r matches Screen::Page(p) && p == old.page)
    }
}


/// Acts on the current mode: more found notes while searching, otherwise
/// the current page again.
pub fn mode_action(g: &mut Globals) -> (r: Screen)
    requires
        old(g).found@.len() <= old(g).found_length,
    ensures
        mode_acted(*old(g), *final(g), r),
{
    if str_eq(g.mode.as_str(), "found") {
        next_found(g)
    } else {
        Screen::Page(g.page)
    }
}


/// Shows a page of notes.
pub fn show_page(n: usize) -> (r: Screen)
    ensures
        r matches Screen::Page(p) && p == n,
{
    Screen::Page(n)
}

/// Shows the current page again.
pub fn refresh_page(g: &Globals) -> (r: Screen)
    ensures
        r matches Screen::Page(p) && p == g.page,
{
    Screen::Page(g.page)
}

/// Goes to the first page.
pub fn goto_first_page() -> (r: Screen)
    ensures
        r matches Screen::Page(p) && p == 1,
{
    Screen::Page(1)
}

/// Goes to the last page.
pub fn goto_last_page(g: &Globals) -> (r: Screen)
    requires
        g.page_size > 0,
    ensures
        r matches Screen::Page(p) && p == max_page(*g),
{
    Screen::Page(get_max_page_number(g))
}

/// Edits the most recent note (see `edit_note`).
pub fn edit_last_note(g: &mut Globals, edited: &str) -> (r: Step)
    requires
        notes_consistent(*old(g)),
        old(g).page_size > 0,
    ensures
        old(g).notes_length == 0 || edited@.len() == 0 ==> unchanged_step(*old(g), *final(g), r),
        old(g).notes_length > 0 && edited@.len() > 0 ==> (r.save matches Some(res) && saved(
            Globals { last_edit: old(g).notes_length, ..*old(g) },
            *final(g),
            res,
            spec_join(views(old(g).notes_vec@).update(old(g).notes_length as int, edited@)),
        ) && (r.screen matches Screen::Page(p) && p == note_page(*old(g), old(g).notes_length as nat))),
{
    let n = g.notes_length;
    edit_note(g, n, edited)
}

/// All notes, numbered, without the header.
pub open spec fn all_notes(g: Globals) -> Seq<(nat, Seq<char>)> {
    Seq::new((g.notes_vec@.len() - 1) as nat, |i: int| ((i + 1) as nat, g.notes_vec@[i + 1]@))
}

/// What showing all notes does: all of them at once; pressed again, the
/// current page.
pub open spec fn all_notes_toggled(old: Globals, new: Globals, r: Screen) -> bool {
    if old.mode@ == "all_notes"@ {
        new == old && (r matches Screen::Page(p) && p == old.page)
    } else {
        &&& new == (Globals { mode: new.mode, ..old })
        &&& new.mode@ == "all_notes"@
        &&& (r matches Screen::Notes(v, m) && numbered_view(v@) == all_notes(old) && m@.len() == 0)
    }
}

/// Shows all notes at once (see `all_notes_toggled`).
pub fn show_all_notes(g: &mut Globals) -> (r: Screen)
    requires
        old(g).notes_vec@.len() >= 1,
    ensures
        all_notes_toggled(*old(g), *final(g), r),
{
    if str_eq(g.mode.as_str(), "all_notes") {
        return Screen::Page(g.page);
    }
    g.mode = "all_notes".to_string();
    let mut notes: Vec<(usize, String)> = Vec::new();
    let mut i: usize = 1;
    while i < g.notes_vec.len()
        invariant
            1 <= i <= g.notes_vec@.len(),
            numbered_view(notes@) =~= Seq::new((i - 1) as nat, |j: int| ((j + 1) as nat, g.notes_vec@[j + 1]@)),
        decreases g.notes_vec@.len() - i,
    {
        let ghost prev = numbered_view(notes@);
        notes.push((i, g.notes_vec[i].clone()));
        assert(numbered_view(notes@) =~= prev.push((i as nat, g.notes_vec@[i as int]@)));
        i = i + 1;
    }
    Screen::Notes(notes, String::new())
}

/// Goes to a page (`p`) or to the page of a note (`n`), by the number
/// given (`first` and `last` allowed); nothing for a number out of range.
pub fn goto_page(g: &Globals, choice: &str, number: &str) -> (r: Screen)
    requires
        g.page_size > 0,
    ensures
        choice@ == "p"@ ==> {
            let pn = spec_number_answer(number@, max_page(*g));
            &&& (pn < 1 || pn > max_page(*g)) ==> r is Stay
            &&& !(pn < 1 || pn > max_page(*g)) ==> (r matches Screen::Page(p) && p == pn)
        },
        choice@ == "n"@ ==> {
            let nn = spec_number_answer(number@, g.notes_length as nat);
            &&& (nn < 1 || nn > g.notes_length) ==> r is Stay
            &&& !(nn < 1 || nn > g.notes_length) ==> (r matches Screen::Page(p) && p == note_page(*g, nn))
        },
        choice@ != "p"@ && choice@ != "n"@ ==> r is Stay,
{
    proof {
        reveal_strlit("p");
        reveal_strlit("n");
        assert("p"@[0] != "n"@[0]);
    }
    if str_eq(choice, "p") {
        let pn = parse_page_ans(g, number);
        if pn < 1 || pn > get_max_page_number(g) {
            return Screen::Stay;
        }
        Screen::Page(pn)
    } else if str_eq(choice, "n") {
        let nn = parse_note_ans(g, number);
        if nn < 1 || nn > g.notes_length {
            return Screen::Stay;
        }
        Screen::Page(get_note_page(g, nn))
    } else {
        Screen::Stay
    }
}

/// What a change of the page size does: up by `PAGE_SIZE_DIFF` to at most
/// `MAX_PAGE_SIZE` and only while there is more than one page, down by as
/// much to no less than `PAGE_SIZE_DIFF`; the header is rewritten and
/// saved. Nothing happens where the size cannot change.
pub open spec fn page_size_changed(old: Globals, new: Globals, increase: bool, r: Option<Result<Vec<u8>, CryptoError>>) -> bool {
    let ps = old.page_size;
    let changes = if increase { ps < MAX_PAGE_SIZE && max_page(old) > 1 } else { ps >= 2 * PAGE_SIZE_DIFF };
    let nps = if increase { ps + PAGE_SIZE_DIFF } else { ps - PAGE_SIZE_DIFF };
    let mid = Globals { page_size: nps as usize, ..old };
    &&& !changes ==> r is None && new == old
    &&& changes ==> (r matches Some(res) && saved(mid, new, res, spec_join(views(old.notes_vec@).update(0, header_text(mid)))))
}


/// Changes how many notes a page holds by `PAGE_SIZE_DIFF`: up to
/// `MAX_PAGE_SIZE` and only while there is more than one page, down to no
/// less than `PAGE_SIZE_DIFF`; the header is rewritten. Nothing happens
/// where the size cannot change.
pub fn change_page_size(g: &mut Globals, increase: bool) -> (r: Option<Result<Vec<u8>, CryptoError>>)
    requires
        old(g).page_size > 0,
        old(g).notes_vec@.len() >= 1,
    ensures
        page_size_changed(*old(g), *final(g), increase, r),
{
    let max_page = get_max_page_number(g);
    let page_size = g.page_size;
    if increase {
        if page_size < MAX_PAGE_SIZE && max_page > 1 {
            g.page_size = page_size + PAGE_SIZE_DIFF;
        } else {
            return None;
        }
    } else {
        if page_size >= PAGE_SIZE_DIFF * 2 {
            g.page_size = page_size - PAGE_SIZE_DIFF;
        } else {
            return None;
        }
    }
    Some(update_header(g))
}

/// What turning the row spacing over does: the flag flips and the header
/// is rewritten and saved.
pub open spec fn row_space_changed(old: Globals, new: Globals, r: Result<Vec<u8>, CryptoError>) -> bool {
    let mid = Globals { row_space: !old.row_space, ..old };
    saved(mid, new, r, spec_join(views(old.notes_vec@).update(0, header_text(mid))))
}


/// Turns the empty row between notes on or off and rewrites the header.
pub fn change_row_space(g: &mut Globals) -> (r: Result<Vec<u8>, CryptoError>)
    requires
        old(g).notes_vec@.len() >= 1,
    ensures
        row_space_changed(*old(g), *final(g), r),
{
    g.row_space = !g.row_space;
    update_header(g)
}

/// The notes text held in the state, unless it must be read from the file
/// again (`None`: the file is to be read and decrypted).
pub fn get_notes(g: &Globals, update: bool) -> (r: Option<String>)
    ensures
        update || g.notes@.len() == 0 ==> r is None,
        !update && g.notes@.len() > 0 ==> r == Some(g.notes),
{
    if g.notes.as_str().is_empty() || update {
        None
    } else {
        Some(g.notes.clone())
    }
}

/// Whether there is an earlier notes text to go back to.
pub fn can_undo(g: &Globals) -> (r: bool)
    ensures
        r == (g.prev_notes@ != g.notes@),
{
    !str_eq(g.prev_notes.as_str(), g.notes.as_str())
}

/// What an undo did: nothing but a message where the notes text is the
/// one kept before the last save; otherwise that text was saved again and
/// the page is shown again.
pub open spec fn undone(old: Globals, new: Globals, r: Step) -> bool {
    if old.prev_notes@ == old.notes@ {
        &&& new == old
        &&& r.save is None
        &&& (r.screen matches Screen::Notes(v, m) && v@.len() == 0 && m@ == "< Nothing To Undo >"@)
    } else {
        &&& (r.save matches Some(res) && saved(old, new, res, old.prev_notes@))
        &&& (r.screen matches Screen::Page(p) && p == old.page)
    }
}

/// Goes back to the notes text from before the last save (see `undone`).
pub fn undo_last_edit(g: &mut Globals) -> (r: Step)
    ensures
        undone(*old(g), *final(g), r),
{
    if !can_undo(g) {
        return Step { save: None, screen: show_message("< Nothing To Undo >") };
    }
    let prev = g.prev_notes.clone();
    let save = update_file(g, prev);
    Step { save: Some(save), screen: Screen::Page(g.page) }
}


/// Copies a list of numbered notes.
pub fn clone_numbered(v: &Vec<(usize, String)>) -> (r: Vec<(usize, String)>)
    ensures
        numbered_view(r@) == numbered_view(v@),
{
    let mut r: Vec<(usize, String)> = Vec::new();
    let mut i: usize = 0;
    while i < v.len()
        invariant
            i <= v@.len(),
            numbered_view(r@) =~= numbered_view(v@).subrange(0, i as int),
        decreases v@.len() - i,
    {
        let ghost prev = numbered_view(r@);
        r.push((v[i].0, v[i].1.clone()));
        assert(numbered_view(r@) =~= prev.push((v@[i as int].0 as nat, v@[i as int].1@)));
        i = i + 1;
    }
    r
}


/// Lines that are all plain and none of them empty.
pub open spec fn full_lines(ls: Seq<Seq<char>>) -> bool {
    &&& plain_lines(ls)
    &&& forall|i: int| 0 <= i < ls.len() ==> (#[trigger] ls[i]).len() > 0
}

/// After a save of plain lines, the note lines are those lines.
pub proof fn lemma_saved_lines(old: Globals, new: Globals, b: Vec<u8>, ls: Seq<Seq<char>>)
    requires
        saved(old, new, Ok(b), spec_join(ls)),
        plain_lines(ls),
    ensures
        views(new.notes_vec@) == ls,
        new.notes_length == ls.len() - 1,
{
    lemma_lines_of_joined(ls);
}

/// Replacing one plain line among plain lines by a plain, non-empty one
/// leaves plain lines.
pub proof fn lemma_update_plain(ls: Seq<Seq<char>>, n: int, l: Seq<char>)
    requires
        plain_lines(ls),
        0 <= n < ls.len(),
        plain_line(l),
        l.len() > 0,
    ensures
        plain_lines(ls.update(n, l)),
{
    let u = ls.update(n, l);
    assert forall|i: int| 0 <= i < u.len() implies plain_line(#[trigger] u[i]) by {
        if i != n {
            assert(u[i] == ls[i]);
        }
    }
    assert(u.last() == u[u.len() - 1]);
    assert(ls.last() == ls[ls.len() - 1]);
}

/// An edit that was saved replaces exactly its note: the edited note holds
/// the new text, every other line is as it was, the number of notes stays
/// and the edited note is the last edited.
pub proof fn lemma_edit_replaces_note(g0: Globals, g1: Globals, n: nat, edited: Seq<char>, r: Step)
    requires
        notes_consistent(g0),
        plain_lines(views(g0.notes_vec@)),
        plain_line(edited),
        note_edited(g0, g1, n, edited, r),
        r.save matches Some(Ok(_)),
    ensures
        0 < n <= g0.notes_length,
        views(g1.notes_vec@) == views(g0.notes_vec@).update(n as int, edited),
        g1.notes_length == g0.notes_length,
        g1.last_edit == n,
{
    let ls = views(g0.notes_vec@).update(n as int, edited);
    lemma_update_plain(views(g0.notes_vec@), n as int, edited);
    let b = r.save->0->Ok_0;
    lemma_saved_lines(Globals { last_edit: n as usize, ..g0 }, g1, b, ls);
}

/// A swap that was saved trades the two notes and keeps everything else;
/// the last-edited note number still points at the note that was last
/// edited.
pub proof fn lemma_swap_keeps_last_edit(g0: Globals, g1: Globals, ans: Seq<char>, r: Step)
    requires
        notes_consistent(g0),
        full_lines(views(g0.notes_vec@)),
        notes_swapped(g0, g1, ans, r),
        r.save matches Some(Ok(_)),
    ensures
        swap_pair(g0, ans) matches Some((n1, n2)) && views(g1.notes_vec@) == views(g0.notes_vec@).update(
            n1 as int,
            views(g0.notes_vec@)[n2 as int],
        ).update(n2 as int, views(g0.notes_vec@)[n1 as int]),
        g1.notes_length == g0.notes_length,
        0 < g0.last_edit <= g0.notes_length ==> views(g1.notes_vec@)[g1.last_edit as int] == views(
            g0.notes_vec@,
        )[g0.last_edit as int],
{
    let (n1, n2) = swap_pair(g0, ans)->0;
    let v = views(g0.notes_vec@);
    let ls = v.update(n1 as int, v[n2 as int]).update(n2 as int, v[n1 as int]);
    assert(plain_lines(ls)) by {
        assert forall|i: int| 0 <= i < ls.len() implies plain_line(#[trigger] ls[i]) && ls[i].len() > 0 by {
            assert(plain_line(v[n1 as int]) && v[n1 as int].len() > 0);
            assert(plain_line(v[n2 as int]) && v[n2 as int].len() > 0);
            if i != n1 && i != n2 {
                assert(ls[i] == v[i]);
                assert(plain_line(v[i]) && v[i].len() > 0);
            }
        }
        assert(ls.last() == ls[ls.len() - 1]);
    }
    let b = r.save->0->Ok_0;
    lemma_saved_lines(
        Globals { last_edit: swapped_index(g0.last_edit as nat, n1, n2) as usize, ..g0 },
        g1,
        b,
        ls,
    );
    assert(views(g0.notes_vec@)[n1 as int] == g0.notes_vec@[n1 as int]@);
    assert(views(g0.notes_vec@)[n2 as int] == g0.notes_vec@[n2 as int]@);
}

/// A move of a block that was saved keeps every note, puts the block where
/// it was asked, and the last-edited note number still points at the note
/// that was last edited.
pub proof fn lemma_move_keeps_last_edit(g0: Globals, g1: Globals, ans: Seq<char>, r: Step)
    requires
        notes_consistent(g0),
        full_lines(views(g0.notes_vec@)),
        notes_moved(g0, g1, ans, r),
        r.save matches Some(Ok(_)),
    ensures
        move_request(g0, ans) matches Some((n1, n2, d)) && views(g1.notes_vec@) == spec_move(
            views(g0.notes_vec@),
            n1 as int,
            n2 as int,
            d as int,
        ),
        g1.notes_length == g0.notes_length,
        g0.last_edit < g0.notes_vec@.len() ==> views(g1.notes_vec@)[g1.last_edit as int] == views(
            g0.notes_vec@,
        )[g0.last_edit as int],
{
    let (n1, n2, d) = move_request(g0, ans)->0;
    let v = views(g0.notes_vec@);
    lemma_move_request_valid(g0, ans);
    let ls = spec_move(v, n1 as int, n2 as int, d as int);
    assert(plain_lines(ls)) by {
        lemma_move_keeps_lines(v, n1 as int, n2 as int, d as int, 0);
        assert forall|j: int| 0 <= j < ls.len() implies plain_line(#[trigger] ls[j]) && ls[j].len() > 0 by {
            let i = lemma_move_preimage(v, n1 as int, n2 as int, d as int, j);
            assert(plain_line(v[i]) && v[i].len() > 0);
        }
        assert(ls.last() == ls[ls.len() - 1]);
    }
    let b = r.save->0->Ok_0;
    lemma_saved_lines(g0, Globals { last_edit: g0.last_edit, ..g1 }, b, ls);
    if g0.last_edit < g0.notes_vec@.len() {
        lemma_move_keeps_lines(v, n1 as int, n2 as int, d as int, g0.last_edit as int);
    }
}

/// A move request names a valid move of the lines of consistent notes.
pub proof fn lemma_move_request_valid(g: Globals, ans: Seq<char>)
    requires
        notes_consistent(g),
        move_request(g, ans) is Some,
    ensures
        ({
            let (n1, n2, d) = move_request(g, ans)->0;
            valid_move(g.notes_vec@.len() as int, n1 as int, n2 as int, d as int) && 1 <= n1
        }),
{
}

/// Every place after a move holds a line that was somewhere before it:
/// the place `i` it came from.
pub proof fn lemma_move_preimage(v: Seq<Seq<char>>, n1: int, n2: int, d: int, j: int) -> (i: int)
    requires
        valid_move(v.len() as int, n1, n2, d),
        0 <= j < v.len(),
    ensures
        0 <= i < v.len(),
        moved_index(i as nat, n1 as nat, n2 as nat, d as nat) == j,
        spec_move(v, n1, n2, d)[j] == v[i],
{
    let k = n2 - n1 + 1;
    let nto = move_target(n1, n2, d);
    let i = if nto <= j < nto + k {
        n1 + (j - nto)
    } else if j < nto {
        if j < n1 { j } else { j + k }
    } else {
        if j - k < n1 { j - k } else { j }
    };
    assert(0 <= i < v.len());
    lemma_move_keeps_lines(v, n1, n2, d, i);
    i
}

/// Undoing right after a save that succeeded brings back the notes text
/// from before the save (where the undo's own save succeeds, or there was
/// nothing to undo because the save kept the text).
pub proof fn lemma_undo_restores(g0: Globals, g1: Globals, b: Vec<u8>, text: Seq<char>, g2: Globals, r: Step)
    requires
        saved(g0, g1, Ok(b), text),
        undone(g1, g2, r),
        !(r.save matches Some(Err(_))),
    ensures
        g2.notes@ == g0.notes@,
        notes_consistent(g0) ==> views(g2.notes_vec@) == views(g0.notes_vec@) && g2.notes_length
            == g0.notes_length,
{
    assert(g1.prev_notes == g0.notes);
    if g1.prev_notes@ == g1.notes@ {
        assert(g2 == g1);
    } else {
        assert(notes_consistent(g2));
    }
    assert(notes_consistent(g2));
    assert(g2.notes@ == g0.notes@);
    if notes_consistent(g0) {
        assert(views(g2.notes_vec@) == spec_lines(g2.notes@));
        assert(views(g0.notes_vec@) == spec_lines(g0.notes@));
        assert(views(g2.notes_vec@).len() == g2.notes_vec@.len());
        assert(views(g0.notes_vec@).len() == g0.notes_vec@.len());
    }
}


/// Rounding up a division keeps the order of the dividends, and the
/// quotient's bounds: `(c - 1) * b < a <= c * b` for `c` the rounded
/// quotient of a positive `a`.
pub proof fn lemma_ceil_div_bounds(a: nat, b: nat, m: nat)
    requires
        b > 0,
        1 <= a <= m,
    ensures
        (ceil_div(a, b) - 1) * b < a <= ceil_div(a, b) * b,
        1 <= ceil_div(a, b) <= ceil_div(m, b),
{
    let q = a / b;
    let r = a % b;
    assert(a == b * q + r && 0 <= r < b) by (nonlinear_arith)
        requires
            b > 0,
            q == a / b,
            r == a % b,
    ;
    let qm = m / b;
    let rm = m % b;
    assert(m == b * qm + rm && 0 <= rm < b) by (nonlinear_arith)
        requires
            b > 0,
            qm == m / b,
            rm == m % b,
    ;
    vstd::arithmetic::div_mod::lemma_div_is_ordered(a as int, m as int, b as int);
    assert(q <= qm);
    let c = ceil_div(a, b);
    let cm = ceil_div(m, b);
    if r == 0 {
        assert(c == q);
        assert((c - 1) * b < a <= c * b && c >= 1) by (nonlinear_arith)
            requires
                a == b * q,
                c == q,
                a >= 1,
                b > 0,
        ;
    } else {
        assert(c == q + 1);
        assert((c - 1) * b < a <= c * b) by (nonlinear_arith)
            requires
                a == b * q + r,
                c == q + 1,
                0 < r < b,
        ;
    }
    assert(c <= cm) by (nonlinear_arith)
        requires
            a == b * q + r,
            m == b * qm + rm,
            0 <= r < b,
            0 <= rm < b,
            a <= m,
            c == (if r == 0 { q } else { q + 1 }),
            cm == (if rm == 0 { qm } else { qm + 1 }),
            b > 0,
            q <= qm,
    {
        if q == qm && r > 0 {
            assert(rm >= r);
        }
    }
}

/// Every note is on the page `get_note_page` gives for it: that page
/// exists, and the notes it shows run from `page_first` to `page_last`
/// around the note.
pub proof fn lemma_note_on_its_page(g: Globals, n: nat)
    requires
        g.page_size > 0,
        1 <= n <= g.notes_length,
    ensures
        1 <= note_page(g, n) <= max_page(g),
        page_first(g, note_page(g, n)) <= n <= page_last(g, note_page(g, n)),
{
    lemma_ceil_div_bounds(n, g.page_size as nat, g.notes_length as nat);
}


/// Keeping some of full lines, the first always, leaves full lines.
pub proof fn lemma_kept_full(ls: Seq<Seq<char>>, numbers: Seq<usize>)
    requires
        full_lines(ls),
    ensures
        full_lines(kept_lines(ls, numbers)),
        kept_lines(ls, numbers).len() >= 1,
        kept_lines(ls, numbers)[0] == ls[0],
    decreases ls.len(),
{
    let k = kept_lines(ls, numbers);
    let last = ls[ls.len() - 1];
    assert(plain_line(last) && last.len() > 0);
    assert(ls.last() == last);
    if ls.len() == 1 {
        assert(kept_lines(ls.drop_last(), numbers) =~= Seq::<Seq<char>>::empty());
        assert(k =~= seq![ls[0]]);
    } else {
        let init = ls.drop_last();
        assert(full_lines(init)) by {
            assert forall|i: int| 0 <= i < init.len() implies plain_line(#[trigger] init[i]) && init[i].len() > 0 by {
                assert(init[i] == ls[i]);
                assert(plain_line(ls[i]) && ls[i].len() > 0);
            }
            assert(init.last() == init[init.len() - 1]);
        }
        lemma_kept_full(init, numbers);
        let prev = kept_lines(init, numbers);
        if k.len() != prev.len() {
            assert(k == prev.push(last));
            assert forall|i: int| 0 <= i < k.len() implies plain_line(#[trigger] k[i]) && k[i].len() > 0 by {
                if i < prev.len() {
                    assert(k[i] == prev[i]);
                    assert(plain_line(prev[i]) && prev[i].len() > 0);
                }
            }
            assert(k.last() == last);
        } else {
            assert(k == prev);
        }
    }
}

/// A delete that was saved leaves exactly the lines whose numbers were
/// not given, the header first, in their order.
pub proof fn lemma_delete_keeps_others(g0: Globals, g1: Globals, numbers: Seq<usize>, r: Step)
    requires
        notes_consistent(g0),
        full_lines(views(g0.notes_vec@)),
        notes_deleted(g0, g1, numbers, r),
        r.save matches Some(Ok(_)),
    ensures
        views(g1.notes_vec@) == kept_lines(views(g0.notes_vec@), numbers),
        g1.notes_vec@[0]@ == g0.notes_vec@[0]@,
        0 < g1.last_edit ==> g1.last_edit == g0.last_edit && !numbers.contains(g0.last_edit),
{
    let ls = kept_lines(views(g0.notes_vec@), numbers);
    lemma_kept_full(views(g0.notes_vec@), numbers);
    let b = r.save->0->Ok_0;
    let mid = Globals { last_edit: if numbers.contains(g0.last_edit) { 0 } else { g0.last_edit }, ..g0 };
    lemma_saved_lines(mid, g1, b, ls);
    assert(views(g1.notes_vec@)[0] == g1.notes_vec@[0]@);
    assert(views(g0.notes_vec@)[0] == g0.notes_vec@[0]@);
}

/// A note added at the end and saved is the new last note, every earlier
/// line stays, and it is the last edited (for a notes text that is its
/// lines joined, as every save leaves it).
pub proof fn lemma_add_appends_note(g0: Globals, g1: Globals, note: Seq<char>, r: Step)
    requires
        notes_consistent(g0),
        g0.notes@ == spec_join(views(g0.notes_vec@)),
        plain_lines(views(g0.notes_vec@)),
        plain_line(note),
        note_added(g0, g1, note, false, r),
        r.save matches Some(Ok(_)),
    ensures
        views(g1.notes_vec@) == views(g0.notes_vec@).push(note),
        g1.notes_length == g0.notes_length + 1,
        g1.last_edit == g1.notes_length,
{
    let v = views(g0.notes_vec@);
    let ls = v.push(note);
    assert(spec_trim(note).len() > 0);
    assert(note.len() > 0) by {
        if note.len() == 0 {
            assert(spec_trim(note) =~= note);
        }
    }
    assert(ls.drop_last() =~= v);
    assert(spec_join(ls) == spec_join(v) + seq!['\n'] + note);
    assert(plain_lines(ls)) by {
        assert forall|i: int| 0 <= i < ls.len() implies plain_line(#[trigger] ls[i]) by {
            if i < v.len() {
                assert(ls[i] == v[i]);
            }
        }
    }
    let b = r.save->0->Ok_0;
    assert(added_text(g0, note, false) == spec_join(ls));
    lemma_saved_lines(g0, Globals { last_edit: g0.last_edit, ..g1 }, b, ls);
}


/// The pages cover the notes in order, without gaps or overlaps: the first
/// page starts at note 1, each page starts right after the one before it
/// ends, and the last page ends at the last note.
pub proof fn lemma_pages_cover_notes(g: Globals, p: nat)
    requires
        g.page_size > 0,
        1 <= p <= max_page(g),
    ensures
        page_first(g, 1) == 1,
        p < max_page(g) ==> page_last(g, p) + 1 == page_first(g, p + 1),
        page_last(g, max_page(g)) == g.notes_length,
{
    let ps = g.page_size as nat;
    let len = g.notes_length as nat;
    let m = max_page(g);
    if len == 0 {
        assert(ceil_div(0, ps) == 0) by (nonlinear_arith)
            requires
                ps > 0,
        {
            assert(0nat % ps == 0 && 0nat / ps == 0);
        }
        assert(m == 1);
    } else {
        lemma_ceil_div_bounds(len, ps, len);
        assert(m == ceil_div(len, ps));
        if p < m {
            assert(p * ps < len) by (nonlinear_arith)
                requires
                    p < m,
                    (m - 1) * ps < len,
                    ps > 0,
            ;
        }
        assert(m * ps >= len);
    }
}


/// Whether `f` occurs in `s`: `s` is some text, then `f`, then some text.
pub open spec fn has_part(s: Seq<char>, f: Seq<char>) -> bool {
    exists|a: Seq<char>, b: Seq<char>| s == #[trigger] a.add(f).add(b)
}

/// `p` occurs somewhere in `s` exactly where `s` splits around it.
pub proof fn lemma_contains_seq_has_part(s: Seq<char>, f: Seq<char>)
    ensures
        contains_seq(s, f) <==> has_part(s, f),
{
    if contains_seq(s, f) {
        let i = choose|i: int| crate::text::occurs_at(s, f, i);
        let a = s.subrange(0, i);
        let b = s.subrange(i + f.len(), s.len() as int);
        assert(s =~= a.add(f).add(b));
    }
    if has_part(s, f) {
        let (a, b) = choose|a: Seq<char>, b: Seq<char>| s == #[trigger] a.add(f).add(b);
        assert(s.subrange(a.len() as int, (a.len() + f.len()) as int) =~= f);
        assert(crate::text::occurs_at(s, f, a.len() as int));
    }
}

/// The found notes of `lines` are, in increasing order of number, exactly
/// the notes after the header that the filter hits, each with its text.
proof fn lemma_found_notes_members(lines: Seq<Seq<char>>, f: Seq<char>, regex: bool)
    ensures
        forall|n: nat, t: Seq<char>| #[trigger] found_notes(lines, f, regex).contains((n, t)) <==> (1 <= n
            < lines.len() && t == lines[n as int] && (if regex {
            regex_matches(f, t)
        } else {
            contains_seq(spec_lowercase(t), f)
        })),
        forall|i: int, j: int|
            0 <= i < j < found_notes(lines, f, regex).len() ==> #[trigger] found_notes(lines, f, regex)[i].0
                < #[trigger] found_notes(lines, f, regex)[j].0,
        forall|i: int| 0 <= i < found_notes(lines, f, regex).len() ==> #[trigger] found_notes(lines, f, regex)[i].0
            < lines.len(),
    decreases lines.len(),
{
    if lines.len() > 1 {
        lemma_found_notes_members(lines.drop_last(), f, regex);
        let prev = found_notes(lines.drop_last(), f, regex);
        let cur = found_notes(lines, f, regex);
        assert forall|n: nat, t: Seq<char>| #[trigger] cur.contains((n, t)) <==> (1 <= n < lines.len() && t
            == lines[n as int] && (if regex {
            regex_matches(f, t)
        } else {
            contains_seq(spec_lowercase(t), f)
        })) by {
            if cur.contains((n, t)) && !prev.contains((n, t)) {
                let k = choose|k: int| 0 <= k < cur.len() && cur[k] == (n, t);
                assert(k == prev.len());
            }
            if prev.contains((n, t)) {
                let k = choose|k: int| 0 <= k < prev.len() && prev[k] == (n, t);
                assert(cur[k] == (n, t));
            }
            if 1 <= n < lines.len() - 1 && t == lines[n as int] {
                assert(lines.drop_last()[n as int] == lines[n as int]);
            }
            if n == lines.len() - 1 && t == lines[n as int] && (if regex {
                regex_matches(f, t)
            } else {
                contains_seq(spec_lowercase(t), f)
            }) {
                assert(cur[prev.len() as int] == (n, t));
            }
        }
    }
}

/// Finding with a plain filter (one that does not start with `re:`) gives
/// the notes, in increasing order of number, whose lower-case text holds
/// the lower-case filter anywhere in it, each with its text; the last note
/// is among them when it matches, and no other note is.
pub proof fn lemma_plain_find(g: Globals, filter: Seq<char>)
    requires
        notes_consistent(g),
        !(filter.len() >= 3 && filter.subrange(0, 3) == "re:"@),
    ensures
        search(g, filter) matches Some(found) && {
            &&& forall|n: nat, t: Seq<char>| #[trigger] found.contains((n, t)) <==> (1 <= n <= g.notes_length
                && t == g.notes_vec@[n as int]@ && has_part(spec_lowercase(t), spec_lowercase(filter)))
            &&& forall|i: int, j: int| 0 <= i < j < found.len() ==> #[trigger] found[i].0 < #[trigger] found[j].0
        },
{
    let lines = views(g.notes_vec@);
    let f = spec_lowercase(filter);
    lemma_found_notes_members(lines, f, false);
    let found = found_notes(lines, f, false);
    assert forall|n: nat, t: Seq<char>| #[trigger] found.contains((n, t)) <==> (1 <= n <= g.notes_length && t
        == g.notes_vec@[n as int]@ && has_part(spec_lowercase(t), f)) by {
        lemma_contains_seq_has_part(spec_lowercase(t), f);
    }
}

/// Finding with a `re:` pattern that is a regular expression gives the
/// notes, in increasing order of number, that the case-insensitive pattern
/// matches, each with its text; the last note is among them when it
/// matches, and no other note is.
pub proof fn lemma_regex_find(g: Globals, filter: Seq<char>)
    requires
        notes_consistent(g),
        filter.len() >= 3 && filter.subrange(0, 3) == "re:"@,
        regex_compiles(case_insensitive_pattern(filter)),
    ensures
        search(g, filter) matches Some(found) && {
            &&& forall|n: nat, t: Seq<char>| #[trigger] found.contains((n, t)) <==> (1 <= n <= g.notes_length
                && t == g.notes_vec@[n as int]@ && regex_matches(case_insensitive_pattern(filter), t))
            &&& forall|i: int, j: int| 0 <= i < j < found.len() ==> #[trigger] found[i].0 < #[trigger] found[j].0
        },
{
    lemma_found_notes_members(views(g.notes_vec@), case_insensitive_pattern(filter), true);
}

/// The numbers of the notes `pattern` matches are, in increasing order,
/// exactly the notes after the header that it matches.
proof fn lemma_matching_notes_members(lines: Seq<Seq<char>>, pattern: Seq<char>)
    ensures
        forall|n: nat| #[trigger] matching_notes(lines, pattern).contains(n) <==> (1 <= n < lines.len()
            && regex_matches(pattern, lines[n as int])),
        forall|i: int, j: int|
            0 <= i < j < matching_notes(lines, pattern).len() ==> #[trigger] matching_notes(lines, pattern)[i]
                < #[trigger] matching_notes(lines, pattern)[j],
        forall|i: int| 0 <= i < matching_notes(lines, pattern).len() ==> #[trigger] matching_notes(lines, pattern)[i]
            < lines.len(),
    decreases lines.len(),
{
    if lines.len() > 1 {
        lemma_matching_notes_members(lines.drop_last(), pattern);
        let prev = matching_notes(lines.drop_last(), pattern);
        let cur = matching_notes(lines, pattern);
        assert forall|n: nat| #[trigger] cur.contains(n) <==> (1 <= n < lines.len() && regex_matches(
            pattern,
            lines[n as int],
        )) by {
            if cur.contains(n) && !prev.contains(n) {
                let k = choose|k: int| 0 <= k < cur.len() && cur[k] == n;
                assert(k == prev.len());
            }
            if prev.contains(n) {
                let k = choose|k: int| 0 <= k < prev.len() && prev[k] == n;
                assert(cur[k] == n);
            }
            if 1 <= n < lines.len() - 1 {
                assert(lines.drop_last()[n as int] == lines[n as int]);
            }
            if n == lines.len() - 1 && regex_matches(pattern, lines[n as int]) {
                assert(cur[prev.len() as int] == n);
            }
        }
    }
}

/// Deleting with a `re:` pattern that is a regular expression names, in
/// increasing order, every note the case-insensitive pattern matches, the
/// last note included, and no other.
pub proof fn lemma_regex_delete(g: Globals, ans: Seq<char>)
    requires
        notes_consistent(g),
        ans.len() >= 3 && ans.subrange(0, 3) == "re:"@,
        regex_compiles(case_insensitive_pattern(ans)),
    ensures
        delete_request(g, ans) matches Some(Ok(nums)) && {
            &&& forall|n: nat| #[trigger] nums.contains(n) <==> (1 <= n <= g.notes_length && regex_matches(
                case_insensitive_pattern(ans),
                g.notes_vec@[n as int]@,
            ))
            &&& forall|i: int, j: int| 0 <= i < j < nums.len() ==> #[trigger] nums[i] < #[trigger] nums[j]
        },
{
    lemma_matching_notes_members(views(g.notes_vec@), case_insensitive_pattern(ans));
}


/// Moving the notes `n1` to `n2` down `k` places, where the note `k` places
/// below the block exists, always happens: the block's notes end up `k`
/// places lower, the `k` notes that were below it end up just above it,
/// and every other note stays where it was.
pub proof fn lemma_move_down_steps(g: Globals, ans: Seq<char>, n1: nat, n2: nat, k: nat)
    requires
        notes_consistent(g),
        1 <= n1 <= n2,
        k >= 1,
        n2 + k <= g.notes_length,
        !contains_seq(ans, "up"@),
        contains_seq(ans, "down"@),
        steps_after(ans, "down"@) == k,
    ensures
        move_dest(g, ans, n1, n2) matches Some(d) && {
            let ls = views(g.notes_vec@);
            let moved = spec_move(ls, n1 as int, n2 as int, d as int);
            &&& move_block(g, ans) == Some((n1, n2)) ==> move_request(g, ans) == Some((n1, n2, d))
            &&& moved.len() == ls.len()
            &&& forall|i: int| n1 <= i <= n2 ==> moved[i + k] == #[trigger] ls[i]
            &&& forall|j: int| n2 < j <= n2 + k ==> moved[j - (n2 - n1 + 1)] == #[trigger] ls[j]
            &&& forall|j: int| 0 <= j < ls.len() && (j < n1 || j > n2 + k) ==> moved[j] == #[trigger] ls[j]
        },
{
    let d = n2 + k;
    assert(move_dest(g, ans, n1, n2) == Some(d));
    let ls = views(g.notes_vec@);
    let moved = spec_move(ls, n1 as int, n2 as int, d as int);
    assert(valid_move(ls.len() as int, n1 as int, n2 as int, d as int));
    lemma_move_keeps_lines(ls, n1 as int, n2 as int, d as int, 0);
    assert forall|i: int| n1 <= i <= n2 implies moved[i + k] == #[trigger] ls[i] by {
        lemma_move_keeps_lines(ls, n1 as int, n2 as int, d as int, i);
    }
    assert forall|j: int| n2 < j <= n2 + k implies moved[j - (n2 - n1 + 1)] == #[trigger] ls[j] by {
        lemma_move_keeps_lines(ls, n1 as int, n2 as int, d as int, j);
    }
    assert forall|j: int| 0 <= j < ls.len() && (j < n1 || j > n2 + k) implies moved[j] == #[trigger] ls[j] by {
        lemma_move_keeps_lines(ls, n1 as int, n2 as int, d as int, j);
    }
}

/// Moving the notes `n1` to `n2` up `k` places, where the note `k` places
/// above the block exists, always happens: the block's notes end up `k`
/// places higher, the `k` notes that were above it end up just below it,
/// and every other note stays where it was.
pub proof fn lemma_move_up_steps(g: Globals, ans: Seq<char>, n1: nat, n2: nat, k: nat)
    requires
        notes_consistent(g),
        1 <= n1 <= n2 <= g.notes_length,
        1 <= k < n1,
        contains_seq(ans, "up"@),
        steps_after(ans, "up"@) == k,
    ensures
        move_dest(g, ans, n1, n2) matches Some(d) && {
            let ls = views(g.notes_vec@);
            let moved = spec_move(ls, n1 as int, n2 as int, d as int);
            &&& move_block(g, ans) == Some((n1, n2)) ==> move_request(g, ans) == Some((n1, n2, d))
            &&& moved.len() == ls.len()
            &&& forall|i: int| n1 <= i <= n2 ==> moved[i - k] == #[trigger] ls[i]
            &&& forall|j: int| n1 - k <= j < n1 ==> moved[j + (n2 - n1 + 1)] == #[trigger] ls[j]
            &&& forall|j: int| 0 <= j < ls.len() && (j < n1 - k || j > n2) ==> moved[j] == #[trigger] ls[j]
        },
{
    let d = (n1 - k) as nat;
    assert(move_dest(g, ans, n1, n2) == Some(d));
    let ls = views(g.notes_vec@);
    let moved = spec_move(ls, n1 as int, n2 as int, d as int);
    assert(valid_move(ls.len() as int, n1 as int, n2 as int, d as int));
    lemma_move_keeps_lines(ls, n1 as int, n2 as int, d as int, 0);
    assert forall|i: int| n1 <= i <= n2 implies moved[i - k] == #[trigger] ls[i] by {
        lemma_move_keeps_lines(ls, n1 as int, n2 as int, d as int, i);
    }
    assert forall|j: int| n1 - k <= j < n1 implies moved[j + (n2 - n1 + 1)] == #[trigger] ls[j] by {
        lemma_move_keeps_lines(ls, n1 as int, n2 as int, d as int, j);
    }
    assert forall|j: int| 0 <= j < ls.len() && (j < n1 - k || j > n2) implies moved[j] == #[trigger] ls[j] by {
        lemma_move_keeps_lines(ls, n1 as int, n2 as int, d as int, j);
    }
}


/// A decimal numeral is neither `first` nor `last`, and reads as its number.
proof fn lemma_numeral_answer(n: nat, max: nat)
    requires
        n <= usize::MAX,
    ensures
        spec_number_answer(spec_trim(decimal(n)), max) == n,
{
    crate::text::lemma_trim_decimal(n);
    crate::text::lemma_decimal_digits(n);
    crate::text::lemma_parse_decimal(n, usize::MAX as nat);
    reveal_strlit("first");
    reveal_strlit("last");
    assert(crate::text::is_digit(decimal(n)[0]));
    assert(decimal(n) != "first"@) by {
        if decimal(n) == "first"@ {
            assert(decimal(n)[0] == 'f');
        }
    }
    assert(decimal(n) != "last"@) by {
        if decimal(n) == "last"@ {
            assert(decimal(n)[0] == 'l');
        }
    }
}

/// Deleting a range `a-b` of existing notes (two numerals and a dash) names
/// the notes `a` to `b`, both ends included, in increasing order.
pub proof fn lemma_range_delete(g: Globals, a: nat, b: nat)
    requires
        1 <= a < b <= g.notes_length,
    ensures
        delete_request(g, decimal(a) + seq!['-'] + decimal(b)) matches Some(Ok(nums)) && nums.len() == b - a + 1
            && forall|i: int| 0 <= i < nums.len() ==> #[trigger] nums[i] == a + i,
{
    let da = decimal(a);
    let db = decimal(b);
    let ans = da + seq!['-'] + db;
    crate::text::lemma_decimal_digits(a);
    crate::text::lemma_decimal_lacks(a, '-');
    crate::text::lemma_decimal_lacks(b, '-');
    crate::text::lemma_decimal_lacks(a, ',');
    crate::text::lemma_decimal_lacks(b, ',');
    reveal_strlit("re:");
    assert(ans[0] == da[0]);
    assert(crate::text::is_digit(da[0]));
    assert(!(ans.len() >= 3 && ans.subrange(0, 3) == "re:"@)) by {
        if ans.len() >= 3 && ans.subrange(0, 3) == "re:"@ {
            assert(ans.subrange(0, 3)[0] == 'r');
        }
    }
    assert(!ans.contains(',')) by {
        if ans.contains(',') {
            let i = choose|i: int| 0 <= i < ans.len() && ans[i] == ',';
            if i < da.len() {
                assert(da[i] == ',');
            } else if i > da.len() {
                assert(db[i - da.len() - 1] == ',');
            }
        }
    }
    assert(ans[da.len() as int] == '-');
    assert(ans.contains('-'));
    crate::text::lemma_split_by_concat(da, db, '-');
    crate::text::lemma_split_by_single(da, '-');
    crate::text::lemma_split_by_single(db, '-');
    crate::text::lemma_split_by_count(ans, '-');
    let parts = split_by(ans, '-');
    assert(parts =~= seq![da, db]);
    lemma_numeral_answer(a, g.notes_length as nat);
    lemma_numeral_answer(b, g.notes_length as nat);
}

} // verus!
