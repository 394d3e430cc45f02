//! Colors: the terminal codes that paint the screen and the way colors are
//! written in the header.

use vstd::prelude::*;

use crate::encryption::CryptoError;
use crate::file::saved;
use crate::globals::{
    g_set_color_1, g_set_color_2, g_set_color_3, Globals, DARK_THEME_COLOR_1, DARK_THEME_COLOR_2,
    DARK_THEME_COLOR_3, LIGHT_THEME_COLOR_1, LIGHT_THEME_COLOR_2, LIGHT_THEME_COLOR_3, PURPLE_THEME_COLOR_1,
    PURPLE_THEME_COLOR_2, PURPLE_THEME_COLOR_3,
};
use crate::menu::{create_menus, first_menu, menu_text, second_menu, third_menu};
use crate::notes::{refresh_page, Screen, Step};
use crate::settings::{header_text, update_header};
use crate::color_names::color_name;
use crate::crypto::random_bytes;
use crate::text::{
    chars_of, decimal, parse_uint, push_char, spec_join, spec_lowercase, spec_parse_uint, spec_trim, split_by,
    split_char, str_eq, to_lowercase, trim, views,
};

verus! {

/// The terminal code that sets the foreground to an RGB color:
/// `ESC [ 38 ; 2 ; r ; g ; b m`.
pub open spec fn fg_code(c: (u8, u8, u8)) -> Seq<char> {
    seq!['\u{1b}', '[', '3', '8', ';', '2', ';'] + decimal(c.0 as nat) + seq![';'] + decimal(c.1 as nat)
        + seq![';'] + decimal(c.2 as nat) + seq!['m']
}

/// The terminal code that sets the background to an RGB color:
/// `ESC [ 48 ; 2 ; r ; g ; b m`.
pub open spec fn bg_code(c: (u8, u8, u8)) -> Seq<char> {
    seq!['\u{1b}', '[', '4', '8', ';', '2', ';'] + decimal(c.0 as nat) + seq![';'] + decimal(c.1 as nat)
        + seq![';'] + decimal(c.2 as nat) + seq!['m']
}

/// The foreground code of an RGB color: `Rgb::fg_string` of `termion`,
/// which writes the sequence of `fg_code` with the three values in decimal.
#[verifier::external_body]
pub(crate) fn rgb_fg(c: (u8, u8, u8)) -> (r: String)
    ensures
        r@ == fg_code(c),
{
    termion::color::Rgb(c.0, c.1, c.2).fg_string()
}

/// The background code of an RGB color: `Rgb::bg_string` of `termion`,
/// which writes the sequence of `bg_code` with the three values in decimal.
#[verifier::external_body]
pub(crate) fn rgb_bg(c: (u8, u8, u8)) -> (r: String)
    ensures
        r@ == bg_code(c),
{
    termion::color::Rgb(c.0, c.1, c.2).bg_string()
}

/// A color written as in the header: `r,g,b` in decimal.
pub open spec fn color_text(c: (u8, u8, u8)) -> Seq<char> {
    decimal(c.0 as nat) + seq![','] + decimal(c.1 as nat) + seq![','] + decimal(c.2 as nat)
}

/// Writes a color as `r,g,b`: `color_to_string` of `colorskill`, whose
/// body is `format!("{},{},{}", ..)` of the three values.
#[verifier::external_body]
pub(crate) fn color_to_string(c: (u8, u8, u8)) -> (r: String)
    ensures
        r@ == color_text(c),
{
    colorskill::color_to_string(c)
}

/// A text without its spaces.
pub open spec fn without_spaces(s: Seq<char>) -> Seq<char>
    decreases s.len(),
{
    if s.len() == 0 {
        s
    } else if s.last() == ' ' {
        without_spaces(s.drop_last())
    } else {
        without_spaces(s.drop_last()).push(s.last())
    }
}

/// A typed color as it is read: in lower case, without spaces.
pub open spec fn cleaned(s: Seq<char>) -> Seq<char> {
    without_spaces(spec_lowercase(s))
}

/// The words that make the reference color darker or lighter.
pub open spec fn is_shade(cs: Seq<char>) -> bool {
    ||| cs == "darker"@
    ||| cs == "darker1"@
    ||| cs == "darker2"@
    ||| cs == "darker3"@
    ||| cs == "darker4"@
    ||| cs == "darker5"@
    ||| cs == "lighter"@
    ||| cs == "lighter1"@
    ||| cs == "lighter2"@
    ||| cs == "lighter3"@
    ||| cs == "lighter4"@
    ||| cs == "lighter5"@
}

/// What `colorskill` gives for a reference color made darker or lighter by
/// one of the shade words (a change of HSL lightness by a fixed percentage).
pub uninterp spec fn color_shade(cs: Seq<char>, reference: (u8, u8, u8)) -> (u8, u8, u8);

/// One part of a typed `r,g,b` color: its number, 0 where it is no number
/// from 0 to 255.
pub open spec fn u8_part(p: Seq<char>) -> u8 {
    match spec_parse_uint(p, 255) {
        Some(n) => n as u8,
        None => 0,
    }
}

/// The color a cleaned typed color (other than `random`) stands for: a
/// shade word changes the reference color; text with commas is `r,g,b`
/// (the reference where there are not exactly three parts); otherwise a
/// color name, or the reference where it is none.
pub open spec fn parsed_color(cs: Seq<char>, reference: (u8, u8, u8)) -> (u8, u8, u8) {
    if is_shade(cs) {
        color_shade(cs, reference)
    } else if cs.contains(',') {
        let parts = split_by(cs, ',');
        if parts.len() != 3 {
            reference
        } else {
            (u8_part(parts[0]), u8_part(parts[1]), u8_part(parts[2]))
        }
    } else {
        match color_name(cs) {
            Some(c) => c,
            None => reference,
        }
    }
}

/// Whether `c` is a color that typing `s` can give: any color for
/// `random`, otherwise the one it stands for (see `parsed_color`).
pub open spec fn color_read(s: Seq<char>, reference: (u8, u8, u8), c: (u8, u8, u8)) -> bool {
    cleaned(s) == "random"@ || c == parsed_color(cleaned(s), reference)
}

/// Reads a color the user typed against a reference color: `parse_color`
/// of `colorskill`. Claimed: the result is what `parsed_color` says of the
/// cleaned text (the crate lower-cases the text, drops its spaces, then
/// tries the shade words, `r,g,b` and its table of names). The crate's
/// `random` answer draws from `thread_rng`, which panics where it cannot
/// be seeded, so that answer is left out here.
#[verifier::external_body]
pub(crate) fn parse_color(s: &str, reference: (u8, u8, u8)) -> (r: (u8, u8, u8))
    requires
        cleaned(s@) != "random"@,
    ensures
        r == parsed_color(cleaned(s@), reference),
        is_shade(cleaned(s@)) ==> r == color_shade(cleaned(s@), reference),
{
    colorskill::parse_color(s, reference)
}

/// A typed color as it is read (see `cleaned`).
pub fn clean_color_text(s: &str) -> (r: String)
    ensures
        r@ == cleaned(s@),
{
    let low = to_lowercase(s);
    let v = chars_of(low.as_str());
    let mut r = String::new();
    let mut i: usize = 0;
    while i < v.len()
        invariant
            i <= v@.len(),
            r@ == without_spaces(v@.subrange(0, i as int)),
        decreases v@.len() - i,
    {
        assert(v@.subrange(0, i + 1).drop_last() =~= v@.subrange(0, i as int));
        if v[i] != ' ' {
            push_char(&mut r, v[i]);
        }
        i = i + 1;
    }
    assert(v@.subrange(0, i as int) =~= low@);
    r
}

/// Reads a color the user typed against a reference color (see
/// `color_read`): `random` takes three bytes from the operating system's
/// random source, or keeps the reference color where it gives none.
pub fn read_color(s: &str, reference: (u8, u8, u8)) -> (r: (u8, u8, u8))
    ensures
        color_read(s@, reference, r),
{
    let cs = clean_color_text(s);
    if str_eq(cs.as_str(), "random") {
        match random_bytes(3) {
            Some(v) => (v[0], v[1], v[2]),
            None => reference,
        }
    } else {
        parse_color(s, reference)
    }
}

/// The code for one of the five colors of the screen: 1 the background, 2
/// the text, 3 the accent, 4 and 5 the input line; nothing without colors.
pub open spec fn spec_color(g: Globals, n: nat) -> Seq<char> {
    if !g.use_colors {
        Seq::empty()
    } else if n == 1 {
        bg_code(g.color_1)
    } else if n == 2 {
        fg_code(g.color_2)
    } else if n == 3 {
        fg_code(g.color_3)
    } else if n == 4 {
        bg_code((10u8, 10u8, 10u8))
    } else if n == 5 {
        fg_code((210u8, 210u8, 210u8))
    } else {
        Seq::empty()
    }
}

/// Gets the code for one of the colors of the screen (see `spec_color`).
pub fn get_color(g: &Globals, n: usize) -> (r: String)
    ensures
        r@ == spec_color(*g, n as nat),
{
    if !g.use_colors {
        return String::new();
    }
    if n == 1 {
        rgb_bg(g.color_1)
    } else if n == 2 {
        rgb_fg(g.color_2)
    } else if n == 3 {
        rgb_fg(g.color_3)
    } else if n == 4 {
        rgb_bg((10, 10, 10))
    } else if n == 5 {
        rgb_fg((210, 210, 210))
    } else {
        String::new()
    }
}


/// Part `i` of an answer for all three colors, the parts separated by
/// `-` and trimmed, or `0` where there are fewer.
pub open spec fn dash_part(answer: Seq<char>, i: int) -> Seq<char> {
    let parts = split_by(answer, '-');
    spec_trim(if i < parts.len() { parts[i] } else { "0"@ })
}

/// The theme colors, each recorded as the previous one of its place.
pub open spec fn themed(g: Globals, c1: (u8, u8, u8), c2: (u8, u8, u8), c3: (u8, u8, u8)) -> Globals {
    Globals {
        color_1: c1,
        color_2: c2,
        color_3: c3,
        prev_color_1: g.color_1,
        prev_color_2: g.color_2,
        prev_color_3: g.color_3,
        ..g
    }
}

/// `c` is `g` after the colors menu did what `choice` and `answer` ask:
/// `1`, `2`, `3` set that color and `4` all three from what was typed (see
/// `color_read`; a `-` separates the three);
/// `d`, `t`, `p` take the dark, light or purple theme; `x` turns colors
/// off; `v` swaps the text and accent colors; `u` with `1` to `4` takes back
/// the previous color of that place, or of all three.
pub open spec fn recolored(g: Globals, c: Globals, choice: Seq<char>, answer: Seq<char>) -> bool {
    if choice == "1"@ {
        c == (Globals { color_1: c.color_1, prev_color_1: g.color_1, ..g }) && color_read(answer, g.color_1, c.color_1)
    } else if choice == "2"@ {
        c == (Globals { color_2: c.color_2, prev_color_2: g.color_2, ..g }) && color_read(answer, g.color_2, c.color_2)
    } else if choice == "3"@ {
        c == (Globals { color_3: c.color_3, prev_color_3: g.color_3, ..g }) && color_read(answer, g.color_3, c.color_3)
    } else if choice == "4"@ {
        &&& c == themed(g, c.color_1, c.color_2, c.color_3)
        &&& color_read(dash_part(answer, 0), g.color_1, c.color_1)
        &&& color_read(dash_part(answer, 1), g.color_2, c.color_2)
        &&& color_read(dash_part(answer, 2), g.color_3, c.color_3)
    } else if choice == "d"@ {
        c == themed(g, DARK_THEME_COLOR_1, DARK_THEME_COLOR_2, DARK_THEME_COLOR_3)
    } else if choice == "t"@ {
        c == themed(g, LIGHT_THEME_COLOR_1, LIGHT_THEME_COLOR_2, LIGHT_THEME_COLOR_3)
    } else if choice == "p"@ {
        c == themed(g, PURPLE_THEME_COLOR_1, PURPLE_THEME_COLOR_2, PURPLE_THEME_COLOR_3)
    } else if choice == "x"@ {
        c == (Globals { use_colors: false, ..g })
    } else if choice == "v"@ {
        c == (Globals {
            color_2: g.color_3,
            color_3: g.color_2,
            prev_color_2: g.color_2,
            prev_color_3: g.color_3,
            ..g
        })
    } else {
        let n = spec_parse_uint(answer, 255);
        if n == Some(1nat) {
            c == (Globals { color_1: g.prev_color_1, prev_color_1: g.color_1, ..g })
        } else if n == Some(2nat) {
            c == (Globals { color_2: g.prev_color_2, prev_color_2: g.color_2, ..g })
        } else if n == Some(3nat) {
            c == (Globals { color_3: g.prev_color_3, prev_color_3: g.color_3, ..g })
        } else {
            c == themed(g, g.prev_color_1, g.prev_color_2, g.prev_color_3)
        }
    }
}

/// Whether the colors menu changes anything for `choice` and `answer`:
/// the choices that ask for more want a non-empty answer, and `u` one of
/// `1` to `4`; an unknown choice changes nothing.
pub open spec fn recolors(choice: Seq<char>, answer: Seq<char>) -> bool {
    if choice == "1"@ || choice == "2"@ || choice == "3"@ || choice == "4"@ {
        answer.len() > 0
    } else if choice == "d"@ || choice == "t"@ || choice == "p"@ || choice == "x"@ || choice == "v"@ {
        true
    } else if choice == "u"@ {
        answer.len() > 0 && (match spec_parse_uint(answer, 255) {
            Some(n) => 1 <= n <= 4,
            None => false,
        })
    } else {
        false
    }
}

/// After the colors changed (`c`), the header was rewritten and saved and
/// the menus made again (`new`); the page is shown again.
pub open spec fn colors_saved(c: Globals, new: Globals, r: Step) -> bool {
    let s = Globals { menus: c.menus, ..new };
    &&& r.save matches Some(res)
    &&& saved(c, s, res, spec_join(views(c.notes_vec@).update(0, header_text(c))))
    &&& views(new.menus@) == seq![menu_text(s, first_menu()), menu_text(s, second_menu()), menu_text(s, third_menu())]
    &&& r.screen == Screen::Page(c.page)
}

/// The question the colors menu asks after a choice, as the prompt, the
/// text offered to edit and whether the answer is trimmed: the color of
/// that place for `1` to `3`, all three for `4`, which place for `u`.
pub fn color_prompt(g: &Globals, choice: &str) -> (r: Option<(String, String, bool)>)
    ensures
        r is Some <==> (choice@ == "1"@ || choice@ == "2"@ || choice@ == "3"@ || choice@ == "4"@ || choice@
            == "u"@),
        choice@ == "1"@ ==> (r matches Some((p, s, t)) && p@ == "BG Color"@ && s@ == color_text(g.color_1) && t),
        choice@ == "2"@ ==> (r matches Some((p, s, t)) && p@ == "FG Color"@ && s@ == color_text(g.color_2) && t),
        choice@ == "3"@ ==> (r matches Some((p, s, t)) && p@ == "Other Color"@ && s@ == color_text(g.color_3)
            && t),
        choice@ == "4"@ ==> (r matches Some((p, s, t)) && p@ == "All Colors"@ && s@ == color_text(g.color_1)
            + " - "@ + color_text(g.color_2) + " - "@ + color_text(g.color_3) && !t),
        choice@ == "u"@ ==> (r matches Some((p, s, t)) && p@ == "Choice"@ && s@.len() == 0 && t),
{
    proof {
        reveal_strlit("1");
        reveal_strlit("2");
        reveal_strlit("3");
        reveal_strlit("4");
        reveal_strlit("u");
        reveal_strlit("");
        assert("1"@[0] == '1' && "2"@[0] == '2' && "3"@[0] == '3' && "4"@[0] == '4' && "u"@[0] == 'u');
    }
    if str_eq(choice, "1") {
        Some(("BG Color".to_string(), color_to_string(g.color_1), true))
    } else if str_eq(choice, "2") {
        Some(("FG Color".to_string(), color_to_string(g.color_2), true))
    } else if str_eq(choice, "3") {
        Some(("Other Color".to_string(), color_to_string(g.color_3), true))
    } else if str_eq(choice, "4") {
        let mut s = color_to_string(g.color_1);
        s.append(" - ");
        s.append(color_to_string(g.color_2).as_str());
        s.append(" - ");
        s.append(color_to_string(g.color_3).as_str());
        Some(("All Colors".to_string(), s, false))
    } else if str_eq(choice, "u") {
        Some(("Choice".to_string(), String::new(), true))
    } else {
        None
    }
}

/// Piece `i` of the parts of an answer, or `0` where there are fewer.
fn part_or_zero(parts: &Vec<String>, i: usize) -> (r: String)
    ensures
        r@ == (if i < parts@.len() { parts@[i as int]@ } else { "0"@ }),
{
    if i < parts.len() {
        parts[i].clone()
    } else {
        "0".to_string()
    }
}

/// Sets the colors as the colors menu's `choice` and `answer` ask (see
/// `recolored` and `recolors`), then rewrites the header, saves and makes
/// the menus again (see `colors_saved`). With colors off, the only question
/// is whether to turn them on (`enable`); yes turns them on, rewrites the
/// header, saves and makes the menus again.
pub fn change_colors(g: &mut Globals, enable: bool, choice: &str, answer: &str) -> (r: Option<Step>)
    requires
        old(g).notes_vec@.len() >= 1,
    ensures
        !old(g).use_colors && !enable ==> r is None && *final(g) == *old(g),
        !old(g).use_colors && enable ==> (r matches Some(step) && colors_saved(
            Globals { use_colors: true, ..*old(g) },
            *final(g),
            step,
        )),
        old(g).use_colors && !recolors(choice@, answer@) ==> r is None && *final(g) == *old(g),
        old(g).use_colors && recolors(choice@, answer@) ==> (r matches Some(step) && exists|c: Globals|
            #[trigger] recolored(*old(g), c, choice@, answer@) && colors_saved(c, *final(g), step)),
{
    if !g.use_colors {
        if !enable {
            return None;
        }
        g.use_colors = true;
        let ghost c = *g;
        let res = update_header(g);
        let ghost s = *g;
        create_menus(g);
        assert(s == (Globals { menus: c.menus, ..*g }));
        return Some(Step { save: Some(res), screen: refresh_page(g) });
    }
    proof {
        reveal_strlit("1");
        reveal_strlit("2");
        reveal_strlit("3");
        reveal_strlit("4");
        reveal_strlit("d");
        reveal_strlit("t");
        reveal_strlit("p");
        reveal_strlit("x");
        reveal_strlit("v");
        reveal_strlit("u");
        assert("1"@[0] == '1' && "2"@[0] == '2' && "3"@[0] == '3' && "4"@[0] == '4' && "u"@[0] == 'u');
        assert("d"@[0] == 'd' && "t"@[0] == 't' && "p"@[0] == 'p' && "x"@[0] == 'x' && "v"@[0] == 'v');
    }
    let ghost g0 = *g;
    if str_eq(choice, "1") || str_eq(choice, "2") || str_eq(choice, "3") {
        if answer.is_empty() {
            return None;
        }
        if str_eq(choice, "1") {
            let nc = read_color(answer, g.color_1);
            g_set_color_1(g, nc);
        } else if str_eq(choice, "2") {
            let nc = read_color(answer, g.color_2);
            g_set_color_2(g, nc);
        } else {
            let nc = read_color(answer, g.color_3);
            g_set_color_3(g, nc);
        }
    } else if str_eq(choice, "4") {
        if answer.is_empty() {
            return None;
        }
        let c1 = g.color_1;
        let c2 = g.color_2;
        let c3 = g.color_3;
        let parts = split_char(answer, '-');
        let p1 = trim(part_or_zero(&parts, 0).as_str());
        let p2 = trim(part_or_zero(&parts, 1).as_str());
        let p3 = trim(part_or_zero(&parts, 2).as_str());
        let n1 = read_color(p1.as_str(), c1);
        let n2 = read_color(p2.as_str(), c2);
        let n3 = read_color(p3.as_str(), c3);
        g_set_color_1(g, n1);
        g_set_color_2(g, n2);
        g_set_color_3(g, n3);
    } else if str_eq(choice, "d") {
        g_set_color_1(g, DARK_THEME_COLOR_1);
        g_set_color_2(g, DARK_THEME_COLOR_2);
        g_set_color_3(g, DARK_THEME_COLOR_3);
    } else if str_eq(choice, "t") {
        g_set_color_1(g, LIGHT_THEME_COLOR_1);
        g_set_color_2(g, LIGHT_THEME_COLOR_2);
        g_set_color_3(g, LIGHT_THEME_COLOR_3);
    } else if str_eq(choice, "p") {
        g_set_color_1(g, PURPLE_THEME_COLOR_1);
        g_set_color_2(g, PURPLE_THEME_COLOR_2);
        g_set_color_3(g, PURPLE_THEME_COLOR_3);
    } else if str_eq(choice, "x") {
        g.use_colors = false;
    } else if str_eq(choice, "v") {
        let c2 = g.color_2;
        let c3 = g.color_3;
        g_set_color_2(g, c3);
        g_set_color_3(g, c2);
    } else if str_eq(choice, "u") {
        if answer.is_empty() {
            return None;
        }
        let n = match parse_uint(answer, 255) {
            Some(n) => n,
            None => 0,
        };
        if n == 1 {
            let c = g.prev_color_1;
            g_set_color_1(g, c);
        } else if n == 2 {
            let c = g.prev_color_2;
            g_set_color_2(g, c);
        } else if n == 3 {
            let c = g.prev_color_3;
            g_set_color_3(g, c);
        } else if n == 4 {
            let p1 = g.prev_color_1;
            let p2 = g.prev_color_2;
            let p3 = g.prev_color_3;
            g_set_color_1(g, p1);
            g_set_color_2(g, p2);
            g_set_color_3(g, p3);
        } else {
            return None;
        }
    } else {
        return None;
    }
    let ghost c = *g;
    assert(recolored(g0, c, choice@, answer@));
    let res = update_header(g);
    let ghost s = *g;
    create_menus(g);
    assert(s == (Globals { menus: c.menus, ..*g }));
    let step = Step { save: Some(res), screen: refresh_page(g) };
    assert(colors_saved(c, *g, step));
    Some(step)
}

} // verus!
