//! Screens other than notes: statistics, the screen saver and the about
//! screen.

use vstd::prelude::*;

use crate::colors::{get_color, spec_color};
use crate::globals::{Globals, VERSION};
use crate::notes::{notes_consistent, show_message, Screen};
use crate::screen::{contracted, shell_contract};
use crate::text::{decimal, spec_words, split_whitespace, str_eq, usize_to_string, views, chars_of, push_char};

verus! {

/// The characters of a line that are not spaces.
pub open spec fn letters(s: Seq<char>) -> nat
    decreases s.len(),
{
    if s.len() == 0 {
        0
    } else {
        letters(s.drop_last()) + if s.last() != ' ' { 1nat } else { 0nat }
    }
}

/// The words and letters of the notes (every line after the header).
pub open spec fn note_counts(ls: Seq<Seq<char>>) -> (nat, nat)
    decreases ls.len(),
{
    if ls.len() <= 1 {
        (0, 0)
    } else {
        let (w, l) = note_counts(ls.drop_last());
        (w + spec_words(ls.last()).len(), l + letters(ls.last()))
    }
}

/// The statistics message.
pub open spec fn stats_text(g: Globals, enc_size: nat, shown_path: Seq<char>) -> Seq<char> {
    let (w, l) = note_counts(views(g.notes_vec@));
    "Stats For: "@ + shown_path + "\n\nNotes: "@ + decimal(g.notes_length as nat) + "\nWords: "@ + decimal(w)
        + "\nLetters: "@ + decimal(l) + "\nEncrypted Size: "@ + decimal(enc_size) + " Bytes\nDecrypted Size: "@
        + decimal(vstd::utf8::encode_utf8(g.notes@).len()) + " Bytes"@
}

/// Counts the letters (characters other than spaces) of a line.
pub fn count_letters(s: &str) -> (r: usize)
    ensures
        r == letters(s@),
{
    let v = chars_of(s);
    let mut n: usize = 0;
    let mut i: usize = 0;
    while i < v.len()
        invariant
            i <= v@.len(),
            n <= i,
            n == letters(v@.subrange(0, i as int)),
        decreases v@.len() - i,
    {
        assert(v@.subrange(0, i + 1).drop_last() =~= v@.subrange(0, i as int));
        if v[i] != ' ' {
            n = n + 1;
        }
        i = i + 1;
    }
    assert(v@.subrange(0, i as int) =~= s@);
    n
}

/// What pressing the key of a screen other than the notes does: shows
/// `text` in that mode; pressed again, goes back to the current page.
pub open spec fn mode_toggled(old: Globals, new: Globals, mode: Seq<char>, text: Seq<char>, r: Screen) -> bool {
    if old.mode@ == mode {
        new == old && (r matches Screen::Page(p) && p == old.page)
    } else {
        &&& new == (Globals { mode: new.mode, ..old })
        &&& new.mode@ == mode
        &&& (r matches Screen::Notes(v, m) && v@.len() == 0 && m@ == text)
    }
}

/// Shows statistics of the notes: how many, their words and letters, and
/// the encrypted (`enc_size`, the file's size) and decrypted sizes in bytes;
/// pressed again, goes back to the current page.
pub fn show_stats(g: &mut Globals, enc_size: usize, home: &str) -> (r: Screen)
    requires
        notes_consistent(*old(g)),
        note_counts(views(old(g).notes_vec@)).0 <= usize::MAX,
        note_counts(views(old(g).notes_vec@)).1 <= usize::MAX,
    ensures
        mode_toggled(
            *old(g),
            *final(g),
            "stats"@,
            stats_text(*old(g), enc_size as nat, contracted(old(g).path@, home@)),
            r,
        ),
{
    if str_eq(g.mode.as_str(), "stats") {
        return Screen::Page(g.page);
    }
    g.mode = "stats".to_string();
    let mut wcount: usize = 0;
    let mut lcount: usize = 0;
    let mut i: usize = 1;
    proof {
        assert(views(g.notes_vec@.subrange(0, 1)).len() == 1);
    }
    while i < g.notes_vec.len()
        invariant
            1 <= i <= g.notes_vec@.len(),
            (wcount as nat, lcount as nat) == note_counts(views(g.notes_vec@.subrange(0, i as int))),
            note_counts(views(g.notes_vec@)).0 <= usize::MAX,
            note_counts(views(g.notes_vec@)).1 <= usize::MAX,
        decreases g.notes_vec@.len() - i,
    {
        assert(views(g.notes_vec@.subrange(0, i + 1)).drop_last() =~= views(g.notes_vec@.subrange(0, i as int)));
        proof {
            lemma_counts_grow(views(g.notes_vec@), i as int + 1);
            assert(views(g.notes_vec@.subrange(0, i + 1)) =~= views(g.notes_vec@).subrange(0, i + 1));
        }
        let words = split_whitespace(g.notes_vec[i].as_str());
        let letters_n = count_letters(g.notes_vec[i].as_str());
        proof {
            let pre = views(g.notes_vec@.subrange(0, i + 1));
            assert(pre.last() == g.notes_vec@[i as int]@);
            assert(words@.len() == views(words@).len());
            assert(note_counts(pre).0 == wcount + spec_words(pre.last()).len());
            assert(note_counts(pre).1 == lcount + letters(pre.last()));
        }
        wcount = wcount + words.len();
        lcount = lcount + letters_n;
        i = i + 1;
    }
    assert(g.notes_vec@.subrange(0, i as int) =~= g.notes_vec@);
    let dec_size = g.notes.as_str().as_bytes().len();
    let mut s = "Stats For: ".to_string();
    s.append(shell_contract(g.path.as_str(), home).as_str());
    s.append("\n\nNotes: ");
    s.append(usize_to_string(g.notes_length).as_str());
    s.append("\nWords: ");
    s.append(usize_to_string(wcount).as_str());
    s.append("\nLetters: ");
    s.append(usize_to_string(lcount).as_str());
    s.append("\nEncrypted Size: ");
    s.append(usize_to_string(enc_size).as_str());
    s.append(" Bytes\nDecrypted Size: ");
    s.append(usize_to_string(dec_size).as_str());
    s.append(" Bytes");
    assert(s@ =~= stats_text(*old(g), enc_size as nat, contracted(old(g).path@, home@)));
    show_message(s.as_str())
}

/// The counts of a prefix of the lines are no larger than those of all.
pub proof fn lemma_counts_grow(ls: Seq<Seq<char>>, k: int)
    requires
        0 <= k <= ls.len(),
    ensures
        note_counts(ls.subrange(0, k)).0 <= note_counts(ls).0,
        note_counts(ls.subrange(0, k)).1 <= note_counts(ls).1,
    decreases ls.len() - k,
{
    if k < ls.len() {
        lemma_counts_grow(ls, k + 1);
        assert(ls.subrange(0, k + 1).drop_last() =~= ls.subrange(0, k));
    } else {
        assert(ls.subrange(0, k) =~= ls);
    }
}

/// One row of the screen saver: fourteen sunglasses faces, without the
/// trailing space.
pub open spec fn saver_row() -> Seq<char> {
    Seq::new(27, |i: int| if i % 2 == 0 { '\u{1F60E}' } else { ' ' })
}

/// The screen saver: seven rows of faces with empty rows between them.
pub open spec fn saver_text() -> Seq<char> {
    let r = saver_row();
    r + "\n\n"@ + r + "\n\n"@ + r + "\n\n"@ + r + "\n\n"@ + r + "\n\n"@ + r + "\n\n"@ + r
}

/// Hides the notes behind rows of faces; pressed again, goes back to the
/// current page.
pub fn show_screensaver(g: &mut Globals) -> (r: Screen)
    ensures
        mode_toggled(*old(g), *final(g), "screen_saver"@, saver_text(), r),
{
    if str_eq(g.mode.as_str(), "screen_saver") {
        return Screen::Page(g.page);
    }
    g.mode = "screen_saver".to_string();
    let mut row = String::new();
    let mut k: usize = 0;
    while k < 14
        invariant
            k <= 14,
            row@ == Seq::new((2 * k) as nat, |i: int| if i % 2 == 0 { '\u{1F60E}' } else { ' ' }),
        decreases 14 - k,
    {
        push_char(&mut row, '\u{1F60E}');
        push_char(&mut row, ' ');
        assert(row@ =~= Seq::new((2 * (k + 1)) as nat, |i: int| if i % 2 == 0 { '\u{1F60E}' } else { ' ' }));
        k = k + 1;
    }
    let t = crate::text::trim(row.as_str());
    proof {
        let full = row@;
        assert(crate::text::spec_is_whitespace(' '));
        assert(!crate::text::spec_is_whitespace('\u{1F60E}'));
        assert(full.drop_last() =~= saver_row());
        assert(crate::text::trim_start(full) == full);
        assert(crate::text::trim_end(full.drop_last()) == full.drop_last());
    }
    let mut s = String::new();
    let mut j: usize = 0;
    while j < 7
        invariant
            j <= 7,
            t@ == saver_row(),
            j == 0 ==> s@.len() == 0,
            j >= 1 ==> s@ == saver_prefix(j as nat),
        decreases 7 - j,
    {
        if j > 0 {
            s.append("\n\n");
        }
        s.append(t.as_str());
        proof {
            if j == 0 {
                assert(s@ =~= saver_prefix(1));
            }
        }
        j = j + 1;
    }
    proof {
        reveal_with_fuel(saver_prefix, 8);
    }
    assert(s@ =~= saver_text());
    show_message(s.as_str())
}

/// The first `k` rows of the screen saver.
pub open spec fn saver_prefix(k: nat) -> Seq<char>
    decreases k,
{
    if k <= 1 {
        saver_row()
    } else {
        saver_prefix((k - 1) as nat) + "\n\n"@ + saver_row()
    }
}

/// The art at the top of the about screen.
pub open spec fn about_art() -> Seq<char> {
    "\n8888888888  .d888  .d888\n888        d88P\"  d88P\"\n888        888    888\n8888888    888888 888888 .d88b.  888d888\n888        888    888   d8P  Y8b 888P\"\n888        888    888   88888888 888\n888        888    888   Y8b.     888\n8888888888 888    888    \"Y8888  888"@
}

/// A tip line of the about screen.
pub open spec fn tip_text(g: Globals, s: Seq<char>) -> Seq<char> {
    spec_color(g, 3) + "Tip:"@ + spec_color(g, 2) + " "@ + s
}

/// The about screen.
pub open spec fn about_text(g: Globals) -> Seq<char> {
    spec_color(g, 3) + about_art() + spec_color(g, 2) + "\n\n"@ + "Effer "@ + VERSION@ + " | Encrypted Notepad"@
        + "\n\n"@ + tip_text(g, "Different major versions may not be compatible"@) + "\n"@ + tip_text(
        g,
        "You can use 'first' and 'last' as note numbers"@,
    ) + "\n"@ + tip_text(g, "1-9 can be used to navigate the first 9 pages"@) + "\n"@ + tip_text(
        g,
        "Start the program with --help to check arguments"@,
    )
}

/// Makes a tip line.
pub fn make_tip(g: &Globals, s: &str) -> (r: String)
    ensures
        r@ == tip_text(*g, s@),
{
    let mut t = get_color(g, 3);
    t.append("Tip:");
    t.append(get_color(g, 2).as_str());
    t.append(" ");
    t.append(s);
    t
}

/// Shows the program's name, version and some tips; pressed again, goes
/// back to the current page.
pub fn show_about(g: &mut Globals) -> (r: Screen)
    ensures
        mode_toggled(*old(g), *final(g), "about"@, about_text(*old(g)), r),
{
    if str_eq(g.mode.as_str(), "about") {
        return Screen::Page(g.page);
    }
    g.mode = "about".to_string();
    let mut s = get_color(g, 3);
    s.append("\n8888888888  .d888  .d888\n888        d88P\"  d88P\"\n888        888    888\n8888888    888888 888888 .d88b.  888d888\n888        888    888   d8P  Y8b 888P\"\n888        888    888   88888888 888\n888        888    888   Y8b.     888\n8888888888 888    888    \"Y8888  888");
    s.append(get_color(g, 2).as_str());
    s.append("\n\n");
    s.append("Effer ");
    s.append(VERSION);
    s.append(" | Encrypted Notepad");
    s.append("\n\n");
    s.append(make_tip(g, "Different major versions may not be compatible").as_str());
    s.append("\n");
    s.append(make_tip(g, "You can use 'first' and 'last' as note numbers").as_str());
    s.append("\n");
    s.append(make_tip(g, "1-9 can be used to navigate the first 9 pages").as_str());
    s.append("\n");
    s.append(make_tip(g, "Start the program with --help to check arguments").as_str());
    show_message(s.as_str())
}

} // verus!
