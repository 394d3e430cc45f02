//! The settings header: the first line of the notes text holds the page
//! size, the row spacing, the three colors and whether colors are used.

use vstd::prelude::*;

use crate::colors::{color_text, color_to_string};
use crate::encryption::CryptoError;
use crate::file::{replace_line, saved};
use crate::globals::{
    g_set_color_1, g_set_color_2, g_set_color_3, Globals, DARK_THEME_COLOR_1, DARK_THEME_COLOR_2,
    DARK_THEME_COLOR_3, DEFAULT_PAGE_SIZE, DEFAULT_ROW_SPACE, DEFAULT_USE_COLORS, MAX_PAGE_SIZE,
};
use crate::patterns::{regex_capture, regex_captures, regex_compiles, regex_valid};
use crate::text::{
    lemma_decimal_lacks, lemma_parse_decimal, lemma_split_by_concat, lemma_split_by_single, lemma_trim_decimal,
    decimal, parse_uint, spec_join, spec_parse_uint, spec_trim, split_by, split_char, str_eq, trim,
    usize_to_string, views,
};

verus! {

/// `true` or `false`, as a setting is written.
pub open spec fn bool_text(b: bool) -> Seq<char> {
    if b {
        "true"@
    } else {
        "false"@
    }
}

/// The header line that records the settings of `g`.
pub open spec fn header_text(g: Globals) -> Seq<char> {
    "page_size="@ + decimal(g.page_size as nat) + " row_space="@ + bool_text(g.row_space) + " color_1="@
        + color_text(g.color_1) + " color_2="@ + color_text(g.color_2) + " color_3="@ + color_text(
        g.color_3,
    ) + " use_colors="@ + bool_text(g.use_colors)
}

/// Writes a flag as `true` or `false`.
pub fn bool_to_string(b: bool) -> (r: String)
    ensures
        r@ == bool_text(b),
{
    if b {
        "true".to_string()
    } else {
        "false".to_string()
    }
}

/// Generates the header line for the current settings.
pub fn format_header(g: &Globals) -> (r: String)
    ensures
        r@ == header_text(*g),
{
    let mut s = "page_size=".to_string();
    s.append(usize_to_string(g.page_size).as_str());
    s.append(" row_space=");
    s.append(bool_to_string(g.row_space).as_str());
    s.append(" color_1=");
    s.append(color_to_string(g.color_1).as_str());
    s.append(" color_2=");
    s.append(color_to_string(g.color_2).as_str());
    s.append(" color_3=");
    s.append(color_to_string(g.color_3).as_str());
    s.append(" use_colors=");
    s.append(bool_to_string(g.use_colors).as_str());
    s
}

/// Rewrites the header with the current settings and saves.
pub fn update_header(g: &mut Globals) -> (r: Result<Vec<u8>, CryptoError>)
    requires
        old(g).notes_vec@.len() >= 1,
    ensures
        saved(*old(g), *final(g), r, spec_join(views(old(g).notes_vec@).update(0, header_text(*old(g))))),
{
    let h = format_header(g);
    replace_line(g, 0, h)
}

/// Puts the page size, row spacing and colors back to their defaults.
pub fn reset_settings(g: &mut Globals)
    ensures
        *final(g) == (Globals {
            page_size: DEFAULT_PAGE_SIZE,
            row_space: DEFAULT_ROW_SPACE,
            color_1: DARK_THEME_COLOR_1,
            color_2: DARK_THEME_COLOR_2,
            color_3: DARK_THEME_COLOR_3,
            prev_color_1: old(g).color_1,
            prev_color_2: old(g).color_2,
            prev_color_3: old(g).color_3,
            ..*old(g)
        }),
{
    g.page_size = DEFAULT_PAGE_SIZE;
    g.row_space = DEFAULT_ROW_SPACE;
    g_set_color_1(g, DARK_THEME_COLOR_1);
    g_set_color_2(g, DARK_THEME_COLOR_2);
    g_set_color_3(g, DARK_THEME_COLOR_3);
}

/// The value a header records for a setting, found with `pattern` and its
/// group; nothing where the pattern does not match.
pub open spec fn stored_setting(pattern: Seq<char>, header: Seq<char>, group: Seq<char>) -> Option<Seq<char>> {
    if regex_compiles(pattern) {
        regex_capture(pattern, header, group)
    } else {
        None
    }
}

/// The text a setting is taken from: the argument where one was given,
/// otherwise what the header records.
pub open spec fn chosen_setting(stored: Option<Seq<char>>, arg: Seq<char>) -> Option<Seq<char>> {
    if arg.len() > 0 {
        Some(arg)
    } else {
        stored
    }
}

/// Whether an argument differs from what the header records (an absent
/// value counts as empty).
pub open spec fn arg_differs(stored: Option<Seq<char>>, arg: Seq<char>) -> bool {
    match stored {
        Some(s) => s != arg,
        None => Seq::<char>::empty() != arg,
    }
}

/// The page size a setting gives: a number from 1 to `MAX_PAGE_SIZE`, the
/// default for anything else than a positive number, the maximum above it.
pub open spec fn page_size_value(c: Option<Seq<char>>) -> usize {
    match c {
        None => DEFAULT_PAGE_SIZE,
        Some(s) => match spec_parse_uint(s, usize::MAX as nat) {
            None => DEFAULT_PAGE_SIZE,
            Some(n) => if n == 0 {
                DEFAULT_PAGE_SIZE
            } else if n > MAX_PAGE_SIZE {
                MAX_PAGE_SIZE
            } else {
                n as usize
            },
        },
    }
}

/// The flag a setting gives: `true` or `false`, the default otherwise.
pub open spec fn bool_value(c: Option<Seq<char>>, default: bool) -> bool {
    match c {
        None => default,
        Some(s) => if s == "true"@ {
            true
        } else if s == "false"@ {
            false
        } else {
            default
        },
    }
}

/// One part of a color: its number, or 0 where it is no number from 0 to 255.
pub open spec fn color_part(s: Seq<char>) -> u8 {
    match spec_parse_uint(spec_trim(s), 255) {
        Some(n) => n as u8,
        None => 0,
    }
}

/// The color a setting gives: three comma-separated parts, the default
/// where there are not exactly three.
pub open spec fn color_value(c: Option<Seq<char>>, default: (u8, u8, u8)) -> (u8, u8, u8) {
    match c {
        None => default,
        Some(s) => {
            let parts = split_by(s, ',');
            if parts.len() != 3 {
                default
            } else {
                (color_part(parts[0]), color_part(parts[1]), color_part(parts[2]))
            }
        },
    }
}

/// Reads a page size setting (see `page_size_value`).
pub fn parse_page_size(s: &str) -> (r: usize)
    ensures
        r == page_size_value(Some(s@)),
{
    let num = match parse_uint(s, usize::MAX) {
        Some(n) => n,
        None => DEFAULT_PAGE_SIZE,
    };
    let mut value = num;
    if value == 0 {
        value = DEFAULT_PAGE_SIZE;
    }
    if value > MAX_PAGE_SIZE {
        value = MAX_PAGE_SIZE;
    }
    value
}

/// Reads a flag setting (see `bool_value`).
pub fn parse_bool(s: &str, default: bool) -> (r: bool)
    ensures
        r == bool_value(Some(s@), default),
{
    if str_eq(s, "true") {
        true
    } else if str_eq(s, "false") {
        false
    } else {
        default
    }
}

/// Reads one part of a color (see `color_part`).
pub fn parse_color_part(s: &str) -> (r: u8)
    ensures
        r == color_part(s@),
{
    let t = trim(s);
    match parse_uint(t.as_str(), 255) {
        Some(n) => n as u8,
        None => 0,
    }
}

/// Reads a color setting (see `color_value`).
pub fn parse_color_setting(s: &str, default: (u8, u8, u8)) -> (r: (u8, u8, u8))
    ensures
        r == color_value(Some(s@), default),
{
    let parts = split_char(s, ',');
    if parts.len() != 3 {
        return default;
    }
    (parse_color_part(parts[0].as_str()), parse_color_part(parts[1].as_str()), parse_color_part(parts[2].as_str()))
}

/// Finds a setting in the header (see `stored_setting`).
pub fn find_setting(pattern: &str, header: &str, group: &str) -> (r: Option<String>)
    ensures
        match r {
            Some(s) => stored_setting(pattern@, header@, group@) == Some(s@),
            None => stored_setting(pattern@, header@, group@) is None,
        },
{
    if regex_valid(pattern) {
        regex_captures(pattern, header, group)
    } else {
        None
    }
}


/// The header line of the notes.
pub open spec fn header_of(g: Globals) -> Seq<char> {
    g.notes_vec@[0]@
}

/// The value the header of `g` records under `pattern` and `group`.
pub open spec fn stored_in(g: Globals, pattern: Seq<char>, group: Seq<char>) -> Option<Seq<char>> {
    stored_setting(pattern, header_of(g), group)
}

/// Whether a setting asks to rewrite the header: where an argument was
/// given, whether it differs from the header; nothing otherwise.
pub open spec fn update_request(stored: Option<Seq<char>>, arg: Seq<char>) -> Option<bool> {
    if arg.len() > 0 {
        Some(arg_differs(stored, arg))
    } else {
        None
    }
}

/// The settings of `g` once read from its header and the arguments.
pub open spec fn settings_of(g: Globals) -> Globals {
    Globals {
        page_size: page_size_value(
            chosen_setting(stored_in(g, "page_size=(?P<page_size>\\d+)"@, "page_size"@), g.arg_page_size@),
        ),
        row_space: bool_value(
            chosen_setting(stored_in(g, "row_space=(?P<row_space>\\w+)"@, "row_space"@), g.arg_row_space@),
            DEFAULT_ROW_SPACE,
        ),
        color_1: color_value(
            chosen_setting(stored_in(g, "color_1=(?P<color_1>\\d+,\\d+,\\d+)"@, "color_1"@), g.arg_color_1@),
            DARK_THEME_COLOR_1,
        ),
        color_2: color_value(
            chosen_setting(stored_in(g, "color_2=(?P<color_2>\\d+,\\d+,\\d+)"@, "color_2"@), g.arg_color_2@),
            DARK_THEME_COLOR_2,
        ),
        color_3: color_value(
            chosen_setting(stored_in(g, "color_3=(?P<color_3>\\d+,\\d+,\\d+)"@, "color_3"@), g.arg_color_3@),
            DARK_THEME_COLOR_3,
        ),
        prev_color_1: g.color_1,
        prev_color_2: g.color_2,
        prev_color_3: g.color_3,
        use_colors: bool_value(
            chosen_setting(stored_in(g, "use_colors=(?P<use_colors>\\w+)"@, "use_colors"@), g.arg_use_colors@),
            DEFAULT_USE_COLORS,
        ),
        ..g
    }
}

/// Whether reading the settings rewrites the header: some setting was
/// given as an argument that differs from what the header records.
pub open spec fn settings_update(g: Globals) -> bool {
    ||| update_request(stored_in(g, "page_size=(?P<page_size>\\d+)"@, "page_size"@), g.arg_page_size@) == Some(true)
    ||| update_request(stored_in(g, "row_space=(?P<row_space>\\w+)"@, "row_space"@), g.arg_row_space@) == Some(true)
    ||| update_request(stored_in(g, "color_1=(?P<color_1>\\d+,\\d+,\\d+)"@, "color_1"@), g.arg_color_1@) == Some(
        true,
    )
    ||| update_request(stored_in(g, "color_2=(?P<color_2>\\d+,\\d+,\\d+)"@, "color_2"@), g.arg_color_2@) == Some(
        true,
    )
    ||| update_request(stored_in(g, "color_3=(?P<color_3>\\d+,\\d+,\\d+)"@, "color_3"@), g.arg_color_3@) == Some(
        true,
    )
    ||| update_request(stored_in(g, "use_colors=(?P<use_colors>\\w+)"@, "use_colors"@), g.arg_use_colors@)
        == Some(true)
}

/// Finds one setting and whether it asks to rewrite the header.
pub fn read_setting(header: &str, pattern: &str, group: &str, arg: &str) -> (r: (Option<String>, Option<bool>))
    ensures
        match r.0 {
            Some(s) => chosen_setting(stored_setting(pattern@, header@, group@), arg@) == Some(s@),
            None => chosen_setting(stored_setting(pattern@, header@, group@), arg@) is None,
        },
        r.1 == update_request(stored_setting(pattern@, header@, group@), arg@),
{
    let cap = find_setting(pattern, header, group);
    if arg.is_empty() {
        (cap, None)
    } else {
        let differs = match &cap {
            Some(c) => !str_eq(c.as_str(), arg),
            None => !str_eq("", arg),
        };
        proof {
            reveal_strlit("");
        }
        (Some(arg.to_string()), Some(differs))
    }
}

/// Reads the settings from the header, an argument taking the place of
/// what the header records, and rewrites the header where an argument asks
/// for it (see `settings_of` and `settings_update`); returns the save, if
/// there was one.
pub fn get_settings(g: &mut Globals) -> (r: Option<Result<Vec<u8>, CryptoError>>)
    requires
        old(g).notes_vec@.len() >= 1,
    ensures
        settings_update(*old(g)) ==> (r matches Some(res) && saved(
            settings_of(*old(g)),
            *final(g),
            res,
            spec_join(views(old(g).notes_vec@).update(0, header_text(settings_of(*old(g))))),
        )),
        !settings_update(*old(g)) ==> r is None && *final(g) == settings_of(*old(g)),
{
    let ghost g0 = *g;
    let header = g.notes_vec[0].clone();
    let mut update = false;

    let (c, u) = read_setting(header.as_str(), "page_size=(?P<page_size>\\d+)", "page_size", g.arg_page_size.as_str());
    if let Some(b) = u {
        update = update || b;
    }
    let page_size = match c {
        Some(s) => parse_page_size(s.as_str()),
        None => DEFAULT_PAGE_SIZE,
    };

    let (c, u) = read_setting(header.as_str(), "row_space=(?P<row_space>\\w+)", "row_space", g.arg_row_space.as_str());
    if let Some(b) = u {
        update = update || b;
    }
    let row_space = match c {
        Some(s) => parse_bool(s.as_str(), DEFAULT_ROW_SPACE),
        None => DEFAULT_ROW_SPACE,
    };

    let (c, u) = read_setting(header.as_str(), "color_1=(?P<color_1>\\d+,\\d+,\\d+)", "color_1", g.arg_color_1.as_str());
    if let Some(b) = u {
        update = update || b;
    }
    let color_1 = match c {
        Some(s) => parse_color_setting(s.as_str(), DARK_THEME_COLOR_1),
        None => DARK_THEME_COLOR_1,
    };

    let (c, u) = read_setting(header.as_str(), "color_2=(?P<color_2>\\d+,\\d+,\\d+)", "color_2", g.arg_color_2.as_str());
    if let Some(b) = u {
        update = update || b;
    }
    let color_2 = match c {
        Some(s) => parse_color_setting(s.as_str(), DARK_THEME_COLOR_2),
        None => DARK_THEME_COLOR_2,
    };

    let (c, u) = read_setting(header.as_str(), "color_3=(?P<color_3>\\d+,\\d+,\\d+)", "color_3", g.arg_color_3.as_str());
    if let Some(b) = u {
        update = update || b;
    }
    let color_3 = match c {
        Some(s) => parse_color_setting(s.as_str(), DARK_THEME_COLOR_3),
        None => DARK_THEME_COLOR_3,
    };

    let (c, u) = read_setting(header.as_str(), "use_colors=(?P<use_colors>\\w+)", "use_colors", g.arg_use_colors.as_str());
    if let Some(b) = u {
        update = update || b;
    }
    let use_colors = match c {
        Some(s) => parse_bool(s.as_str(), DEFAULT_USE_COLORS),
        None => DEFAULT_USE_COLORS,
    };

    g.page_size = page_size;
    g.row_space = row_space;
    g_set_color_1(g, color_1);
    g_set_color_2(g, color_2);
    g_set_color_3(g, color_3);
    g.use_colors = use_colors;
    assert(*g == settings_of(g0));
    assert(update == settings_update(g0));
    if update {
        Some(update_header(g))
    } else {
        None
    }
}


/// A page size written in the header reads back as itself.
pub proof fn lemma_page_size_round_trip(ps: usize)
    requires
        1 <= ps <= MAX_PAGE_SIZE,
    ensures
        page_size_value(Some(decimal(ps as nat))) == ps,
{
    lemma_parse_decimal(ps as nat, usize::MAX as nat);
}

/// A flag written in the header reads back as itself.
pub proof fn lemma_bool_round_trip(b: bool, default: bool)
    ensures
        bool_value(Some(bool_text(b)), default) == b,
{
    reveal_strlit("true");
    reveal_strlit("false");
    assert("true"@[0] != "false"@[0]);
}

/// A color written in the header reads back as itself.
pub proof fn lemma_color_round_trip(c: (u8, u8, u8), default: (u8, u8, u8))
    ensures
        color_value(Some(color_text(c)), default) == c,
{
    let d0 = decimal(c.0 as nat);
    let d1 = decimal(c.1 as nat);
    let d2 = decimal(c.2 as nat);
    lemma_decimal_lacks(c.0 as nat, ',');
    lemma_decimal_lacks(c.1 as nat, ',');
    lemma_decimal_lacks(c.2 as nat, ',');
    lemma_split_by_single(d0, ',');
    lemma_split_by_single(d1, ',');
    lemma_split_by_single(d2, ',');
    lemma_split_by_concat(d1, d2, ',');
    lemma_split_by_concat(d0, d1 + seq![','] + d2, ',');
    assert(color_text(c) =~= d0 + seq![','] + (d1 + seq![','] + d2));
    let parts = split_by(color_text(c), ',');
    assert(parts =~= seq![d0, d1, d2]);
    lemma_trim_decimal(c.0 as nat);
    lemma_trim_decimal(c.1 as nat);
    lemma_trim_decimal(c.2 as nat);
    lemma_parse_decimal(c.0 as nat, 255);
    lemma_parse_decimal(c.1 as nat, 255);
    lemma_parse_decimal(c.2 as nat, 255);
}

} // verus!
