//! What the screen shows: notes with their numbers, the page indicator
//! and the menu.

use vstd::prelude::*;

use crate::colors::{get_color, spec_color};
use crate::globals::Globals;
use crate::notes::{
    check_page_number, checked_page, get_max_page_number, get_page_notes, max_page, notes_consistent,
    num_digits, numbered_view, page_notes,
};
use crate::text::{
    chars_of, decimal, push_char, spec_join, spec_trim, split_by, starts_with, string_of, trim, trim_end, usize_to_string,
};

verus! {

/// What `textwrap::fill` gives for a text and a line width.
pub uninterp spec fn textwrap_fill(text: Seq<char>, width: usize) -> Seq<char>;

/// Wraps a text to lines of at most `width` columns: `fill` of `textwrap`.
/// Claimed: the result is the named wrapping.
#[verifier::external_body]
pub(crate) fn wrap_text(text: &str, width: usize) -> (r: String)
    ensures
        r@ == textwrap_fill(text@, width),
{
    textwrap::fill(text, width)
}

/// The lines of a text as `str::split_terminator('\n')` gives them: the
/// pieces between line breaks, without an empty piece after a final one.
pub open spec fn terminated_lines(text: Seq<char>) -> Seq<Seq<char>> {
    let parts = split_by(text, '\n');
    if parts.last().len() == 0 {
        parts.drop_last()
    } else {
        parts
    }
}

/// One line with the prefix in front: without its trailing white space
/// where the line is blank.
pub open spec fn indented_line(line: Seq<char>, prefix: Seq<char>) -> Seq<char> {
    (if spec_trim(line).len() == 0 {
        trim_end(prefix)
    } else {
        prefix
    }) + line
}

/// A text with a prefix in front of each line, as `textwrap::indent` makes
/// it: the lines joined again, and a final line break kept.
pub open spec fn textwrap_indent(text: Seq<char>, prefix: Seq<char>) -> Seq<char> {
    let ls = terminated_lines(text);
    spec_join(Seq::new(ls.len(), |i: int| indented_line(ls[i], prefix))) + (if text.len() > 0 && text.last()
        == '\n' {
        seq!['\n']
    } else {
        Seq::empty()
    })
}

/// Puts a prefix in front of each line: `indent` of `textwrap`. Claimed:
/// the result is `textwrap_indent`, which follows the crate's source line
/// by line.
#[verifier::external_body]
pub(crate) fn indent_text(text: &str, prefix: &str) -> (r: String)
    ensures
        r@ == textwrap_indent(text@, prefix@),
{
    textwrap::indent(text, prefix)
}

/// `n` spaces.
pub open spec fn spaces(n: nat) -> Seq<char> {
    Seq::new(n, |i: int| ' ')
}

/// Makes `n` spaces.
pub fn make_spaces(n: usize) -> (r: String)
    ensures
        r@ == spaces(n as nat),
{
    let mut s = String::new();
    let mut i: usize = 0;
    while i < n
        invariant
            i <= n,
            s@ == spaces(i as nat),
        decreases n - i,
    {
        push_char(&mut s, ' ');
        assert(s@ =~= spaces((i + 1) as nat));
        i = i + 1;
    }
    s
}

/// The padding that lines a note's text up with longer note numbers.
pub open spec fn note_pad(num: nat, padding: nat) -> Seq<char> {
    let len = decimal(num).len();
    if padding > 0 && len < padding {
        spaces((padding - len) as nat)
    } else {
        Seq::empty()
    }
}

/// The width a note's text is wrapped to: what is left of the terminal,
/// at most 50 columns.
pub open spec fn wrap_width(num: nat, padding: nat, width: nat) -> nat {
    let n = width - decimal(num).len() - note_pad(num, padding).len() - 5;
    if n < 50 {
        n as nat
    } else {
        50
    }
}

/// A note as it is shown: `(n) ` and the text, wrapped, with continuation
/// lines indented under the text where asked, in color where asked.
pub open spec fn formatted_note(g: Globals, num: nat, text: Seq<char>, colors: bool, padding: nat, indent: bool, width: nat) -> Seq<char> {
    let pad = note_pad(num, padding);
    let space = if indent { spaces(decimal(num).len() + pad.len() + 3) } else { Seq::empty() };
    let wrapped = spec_trim(textwrap_indent(textwrap_fill(text, wrap_width(num, padding, width) as usize), space));
    if colors {
        spec_color(g, 3) + "("@ + decimal(num) + ") "@ + pad + spec_color(g, 2) + wrapped
    } else {
        "("@ + decimal(num) + ") "@ + pad + wrapped
    }
}

/// Formats a note for the screen (see `formatted_note`), for a terminal of
/// `width` columns.
pub fn format_note(g: &Globals, note: &(usize, String), colors: bool, padding: usize, indent: bool, width: usize) -> (r: String)
    requires
        width >= decimal(note.0 as nat).len() + note_pad(note.0 as nat, padding as nat).len() + 5,
    ensures
        r@ == formatted_note(*g, note.0 as nat, note.1@, colors, padding as nat, indent, width as nat),
{
    let len = num_digits(note.0);
    let pad = if padding > 0 && len < padding { make_spaces(padding - len) } else { String::new() };
    let pad_len = if padding > 0 && len < padding { padding - len } else { 0 };
    assert(pad@.len() == pad_len);
    let space = if indent { make_spaces(len + pad_len + 3) } else { String::new() };
    let n = width - len - pad_len - 5;
    let w = if n < 50 { n } else { 50 };
    let txt = wrap_text(note.1.as_str(), w);
    let text = trim(indent_text(txt.as_str(), space.as_str()).as_str());
    let mut r = if colors { get_color(g, 3) } else { String::new() };
    r.append("(");
    r.append(usize_to_string(note.0).as_str());
    r.append(") ");
    r.append(pad.as_str());
    if colors {
        r.append(get_color(g, 2).as_str());
    }
    r.append(text.as_str());
    r
}

/// The padding a list of numbered notes needs so that their texts line up:
/// the digits of the longest number, where some number is longer than the
/// first; otherwise none.
pub open spec fn padding_of(nums: Seq<nat>) -> (nat, nat)
    decreases nums.len(),
{
    if nums.len() == 0 {
        (0, 0)
    } else {
        let (max, len) = padding_of(nums.drop_last());
        let nl = decimal(nums.last()).len();
        if len == 0 {
            (max, nl)
        } else if nl > len {
            (nl, nl)
        } else {
            (max, len)
        }
    }
}

/// The numbers of some numbered notes.
pub open spec fn numbers_of(notes: Seq<(nat, Seq<char>)>) -> Seq<nat> {
    Seq::new(notes.len(), |i: int| notes[i].0)
}

/// Calculates the padding a list of notes needs (see `padding_of`).
pub fn calculate_padding(notes: &[(usize, String)]) -> (r: usize)
    ensures
        r == padding_of(numbers_of(numbered_view(notes@))).0,
{
    let mut max: usize = 0;
    let mut len: usize = 0;
    let mut i: usize = 0;
    while i < notes.len()
        invariant
            i <= notes@.len(),
            (max as nat, len as nat) == padding_of(numbers_of(numbered_view(notes@.subrange(0, i as int)))),
        decreases notes@.len() - i,
    {
        assert(numbers_of(numbered_view(notes@.subrange(0, i + 1))).drop_last() =~= numbers_of(numbered_view(notes@.subrange(0, i as int))));
        let nl = num_digits(notes[i].0);
        if len == 0 {
            len = nl;
        } else if nl > len {
            len = nl;
            max = nl;
        }
        i = i + 1;
    }
    assert(notes@.subrange(0, i as int) =~= notes@);
    max
}


/// Whether a note fits a terminal of `width` columns: its number, the
/// padding and five more columns.
pub open spec fn note_fits(num: nat, padding: nat, width: nat) -> bool {
    width >= decimal(num).len() + note_pad(num, padding).len() + 5
}

/// Whether every note of a list fits a terminal of `width` columns.
pub open spec fn notes_fit_spec(notes: Seq<(nat, Seq<char>)>, width: nat) -> bool {
    let padding = padding_of(numbers_of(notes)).0;
    forall|i: int| 0 <= i < notes.len() ==> note_fits(#[trigger] notes[i].0, padding, width)
}

/// Checks that every note of a list fits the terminal.
pub fn notes_fit(notes: &Vec<(usize, String)>, width: usize) -> (r: bool)
    ensures
        r == notes_fit_spec(numbered_view(notes@), width as nat),
{
    let padding = calculate_padding(notes.as_slice());
    let mut i: usize = 0;
    while i < notes.len()
        invariant
            i <= notes@.len(),
            padding == padding_of(numbers_of(numbered_view(notes@))).0,
            forall|j: int| 0 <= j < i ==> note_fits(#[trigger] numbered_view(notes@)[j].0, padding as nat, width as nat),
        decreases notes@.len() - i,
    {
        let len = num_digits(notes[i].0);
        let pad_len = if padding > 0 && len < padding { padding - len } else { 0 };
        assert(numbered_view(notes@)[i as int].0 == notes@[i as int].0);
        if width < 5 || width - 5 < len || width - 5 - len < pad_len {
            assert(!note_fits(numbered_view(notes@)[i as int].0, padding as nat, width as nat));
            return false;
        }
        i = i + 1;
    }
    true
}

/// The lines printed for a list of notes: each formatted note, after an
/// empty row when rows are spaced.
pub open spec fn printed_notes(g: Globals, notes: Seq<(nat, Seq<char>)>, width: nat) -> Seq<Seq<char>>
    decreases notes.len(),
{
    if notes.len() == 0 {
        Seq::empty()
    } else {
        let padding = padding_of(numbers_of(notes)).0;
        printed_prefix(g, notes, padding, width, notes.len() as int)
    }
}

/// The lines printed for the first `k` notes of a list, with a given padding.
pub open spec fn printed_prefix(g: Globals, notes: Seq<(nat, Seq<char>)>, padding: nat, width: nat, k: int) -> Seq<Seq<char>>
    decreases k,
{
    if k <= 0 {
        Seq::empty()
    } else {
        let prev = printed_prefix(g, notes, padding, width, k - 1);
        let n = notes[k - 1];
        let line = formatted_note(g, n.0, n.1, true, padding, true, width);
        if g.row_space {
            prev.push(Seq::empty()).push(line)
        } else {
            prev.push(line)
        }
    }
}

/// The lines printed for a list of notes (see `printed_notes`).
pub fn print_notes(g: &Globals, notes: &Vec<(usize, String)>, width: usize) -> (r: Vec<String>)
    requires
        notes_fit_spec(numbered_view(notes@), width as nat),
    ensures
        crate::text::views(r@) == printed_notes(*g, numbered_view(notes@), width as nat),
{
    let space = g.row_space;
    let padding = calculate_padding(notes.as_slice());
    let mut out: Vec<String> = Vec::new();
    let mut i: usize = 0;
    while i < notes.len()
        invariant
            i <= notes@.len(),
            space == g.row_space,
            padding == padding_of(numbers_of(numbered_view(notes@))).0,
            notes_fit_spec(numbered_view(notes@), width as nat),
            crate::text::views(out@) == printed_prefix(*g, numbered_view(notes@), padding as nat, width as nat, i as int),
        decreases notes@.len() - i,
    {
        let ghost prev = crate::text::views(out@);
        assert(note_fits(numbered_view(notes@)[i as int].0, padding as nat, width as nat));
        if space {
            out.push(String::new());
        }
        let line = format_note(g, &notes[i], true, padding, true, width);
        out.push(line);
        proof {
            if space {
                assert(crate::text::views(out@) =~= prev.push(Seq::empty()).push(line@));
            } else {
                assert(crate::text::views(out@) =~= prev.push(line@));
            }
        }
        i = i + 1;
    }
    out
}

/// A path shown with the home folder written as `~`.
pub open spec fn contracted(path: Seq<char>, home: Seq<char>) -> Seq<char> {
    if home.len() <= path.len() && path.subrange(0, home.len() as int) == home {
        seq!['~'] + path.skip(home.len() as int)
    } else {
        path
    }
}

/// A path with a leading `~` read as the home folder `home`, as shell tilde
/// expansion reads it: `~` alone, or `~` followed by `/`; any other path
/// (`~name` among them) is left as it is.
pub open spec fn tilde_expanded(path: Seq<char>, home: Seq<char>) -> Seq<char> {
    if path.len() > 0 && path[0] == '~' && (path.len() == 1 || path[1] == '/') {
        home + path.skip(1)
    } else {
        path
    }
}

/// Showing the home folder as `~` and reading `~` back as the home folder
/// gives the path again for the home folder itself and any path under it;
/// a path that does not start with the home folder is shown as it is.
pub proof fn lemma_contract_then_expand(path: Seq<char>, home: Seq<char>)
    ensures
        path == home || (home.len() < path.len() && path.subrange(0, home.len() as int) == home
            && path[home.len() as int] == '/') ==> tilde_expanded(contracted(path, home), home) == path,
        !(home.len() <= path.len() && path.subrange(0, home.len() as int) == home) ==> contracted(path, home)
            == path,
{
    if path == home {
        assert(path.subrange(0, home.len() as int) =~= home);
        let c = contracted(path, home);
        assert(c =~= seq!['~']);
        assert(home + c.skip(1) =~= path);
    } else if home.len() < path.len() && path.subrange(0, home.len() as int) == home && path[home.len() as int]
        == '/' {
        let c = contracted(path, home);
        assert(c =~= seq!['~'] + path.skip(home.len() as int));
        assert(c[1] == path[home.len() as int]);
        assert(home + c.skip(1) =~= path);
    }
}

/// Writes a path with the home folder `home` as `~`.
pub fn shell_contract(path: &str, home: &str) -> (r: String)
    ensures
        r@ == contracted(path@, home@),
{
    if starts_with(path, home) {
        let v = chars_of(path);
        let h = chars_of(home);
        let mut r = String::new();
        push_char(&mut r, '~');
        r.append(string_of(&v, h.len(), v.len()).as_str());
        r
    } else {
        path.to_string()
    }
}

/// The page indicator: the page, the number of pages and the file.
pub open spec fn page_indicator(g: Globals, page: nat, shown_path: Seq<char>) -> Seq<char> {
    "\n< Page "@ + decimal(page) + " of "@ + decimal(max_page(g)) + " >\n"@ + shown_path
}

/// Writes the page indicator for `page`, with the file's path as
/// `shell_contract` shows it.
pub fn show_page_indicator(g: &Globals, page: usize, home: &str) -> (r: String)
    requires
        g.page_size > 0,
    ensures
        r@ == page_indicator(*g, page as nat, contracted(g.path@, home@)),
{
    let mut r = "\n< Page ".to_string();
    r.append(usize_to_string(page).as_str());
    r.append(" of ");
    r.append(usize_to_string(get_max_page_number(g)).as_str());
    r.append(" >\n");
    r.append(shell_contract(g.path.as_str(), home).as_str());
    r
}

/// The menu line shown under the notes.
pub fn show_menu(g: &Globals) -> (r: String)
    requires
        g.current_menu < g.menus@.len(),
    ensures
        r == g.menus@[g.current_menu as int],
{
    g.menus[g.current_menu].clone()
}


/// The lines of a screen: a page of notes with the page indicator (and
/// the page remembered, in notes mode), or the given notes with the
/// message; the menu last. `None` where a note does not fit the terminal.
pub open spec fn screen_lines(
    g: Globals,
    page: nat,
    notes: Seq<(nat, Seq<char>)>,
    message: Seq<char>,
    width: nat,
    home: Seq<char>,
) -> Option<Seq<Seq<char>>> {
    let p = checked_page(g, page, true);
    let shown = if p > 0 { page_notes(g, p) } else { notes };
    if !notes_fit_spec(shown, width) {
        None
    } else {
        let body = printed_notes(g, shown, width);
        let tail = if p > 0 {
            seq![page_indicator(g, p, contracted(g.path@, home))]
        } else if message.len() > 0 {
            seq!["\n"@ + message]
        } else {
            Seq::empty()
        };
        Some(body + tail + seq![g.menus@[g.current_menu as int]@])
    }
}

/// Shows a page of notes (or, for page 0, the given notes and message):
/// returns the lines to print after clearing the screen, or `None` where a
/// note does not fit a terminal of `width` columns. Showing a page records
/// it as the current page and enters notes mode.
pub fn show_notes(
    g: &mut Globals,
    page: usize,
    notes: &Vec<(usize, String)>,
    message: &str,
    width: usize,
    home: &str,
) -> (r: Option<Vec<String>>)
    requires
        notes_consistent(*old(g)),
        old(g).page_size > 0,
        old(g).current_menu < old(g).menus@.len(),
    ensures
        ({
            let p = checked_page(*old(g), page as nat, true);
            &&& p > 0 ==> *final(g) == (Globals { mode: final(g).mode, page: p as usize, ..*old(g) })
                && final(g).mode@ == "notes"@
            &&& p == 0 ==> *final(g) == *old(g)
            &&& match screen_lines(*old(g), page as nat, numbered_view(notes@), message@, width as nat, home@) {
                None => r is None,
                Some(ls) => r matches Some(v) && crate::text::views(v@) == ls,
            }
        }),
{
    let ghost g0 = *g;
    let page = check_page_number(g, page, true);
    let shown = if page > 0 { get_page_notes(g, page) } else { crate::notes::clone_numbered(notes) };
    if !notes_fit(&shown, width) {
        if page > 0 {
            g.mode = "notes".to_string();
            g.page = page;
        }
        return None;
    }
    let mut out = print_notes(g, &shown, width);
    let ghost body = crate::text::views(out@);
    if page > 0 {
        out.push(show_page_indicator(g, page, home));
    } else if !message.is_empty() {
        let mut m = "\n".to_string();
        m.append(message);
        out.push(m);
    }
    out.push(show_menu(g));
    if page > 0 {
        g.mode = "notes".to_string();
        g.page = page;
    }
    proof {
        let tail = if page > 0 {
            seq![page_indicator(g0, page as nat, contracted(g0.path@, home@))]
        } else if message@.len() > 0 {
            seq!["\n"@ + message@]
        } else {
            Seq::empty()
        };
        assert(crate::text::views(out@) =~= body + tail + seq![g0.menus@[g0.current_menu as int]@]);
    }
    Some(out)
}

} // verus!
