//! What the command line decides: which file is used, the settings it
//! gives, and the notes printed instead of starting the notepad.

use vstd::prelude::*;

use crate::globals::Globals;
use crate::notes::num_digits;
use crate::screen::{format_note, formatted_note, note_fits};
use crate::structs::Settings;
use crate::text::{lines, push_char, spec_lines, views};

verus! {

/// The notes file to use: the path given first, then the one given with
/// `--path`, then the default one.
pub fn choose_path(positional: Option<String>, option: Option<String>, default_path: String) -> (r: String)
    ensures
        r == (match positional {
            Some(p) => p,
            None => match option {
                Some(p) => p,
                None => default_path,
            },
        }),
{
    match positional {
        Some(p) => p,
        None => match option {
            Some(p) => p,
            None => default_path,
        },
    }
}

/// The setting that a value given from outside leaves: the given one, or
/// the one already there.
pub open spec fn given_or(v: Option<String>, current: String) -> String {
    match v {
        Some(x) => x,
        None => current,
    }
}

/// The state once the settings given from outside the file are taken as
/// the arguments that override the header.
pub open spec fn settings_applied(g: Globals, sets: Settings) -> Globals {
    Globals {
        arg_page_size: given_or(sets.page_size, g.arg_page_size),
        arg_row_space: given_or(sets.row_space, g.arg_row_space),
        arg_color_1: given_or(sets.color_1, g.arg_color_1),
        arg_color_2: given_or(sets.color_2, g.arg_color_2),
        arg_color_3: given_or(sets.color_3, g.arg_color_3),
        arg_use_colors: given_or(sets.use_colors, g.arg_use_colors),
        ..g
    }
}

/// Takes the settings given from outside the file (a configuration file or
/// the command line) as the arguments that override the header.
pub fn apply_settings(g: &mut Globals, sets: Settings)
    ensures
        *final(g) == settings_applied(*old(g), sets),
{
    let Settings { page_size, row_space, color_1, color_2, color_3, use_colors } = sets;
    if let Some(x) = page_size {
        g.arg_page_size = x;
    }
    if let Some(x) = row_space {
        g.arg_row_space = x;
    }
    if let Some(x) = color_1 {
        g.arg_color_1 = x;
    }
    if let Some(x) = color_2 {
        g.arg_color_2 = x;
    }
    if let Some(x) = color_3 {
        g.arg_color_3 = x;
    }
    if let Some(x) = use_colors {
        g.arg_use_colors = x;
    }
}

/// Takes the settings of the command line: where a configuration file was
/// named, the settings it holds if it could be read and parsed (`config`),
/// and never the per-setting options; otherwise the options (`options`).
pub fn apply_given_settings(g: &mut Globals, config_named: bool, config: Option<Settings>, options: Settings)
    ensures
        config_named ==> *final(g) == (match config {
            Some(c) => settings_applied(*old(g), c),
            None => *old(g),
        }),
        !config_named ==> *final(g) == settings_applied(*old(g), options),
{
    if config_named {
        if let Some(c) = config {
            apply_settings(g, c);
        }
    } else {
        apply_settings(g, options);
    }
}

/// How the notes are printed instead of starting the notepad.
#[derive(Debug, PartialEq, Eq, Structural, Clone, Copy)]
pub enum PrintMode {
    /// Every line as it is.
    Print,
    /// Every line, with empty lines between them.
    Print2,
    /// The notes formatted.
    FPrint,
    /// The notes formatted, with empty lines between them.
    FPrint2,
    /// The notes formatted without indentation.
    FPrint3,
    /// The notes formatted without indentation, with empty lines between them.
    FPrint4,
}

/// The print mode the command line asks for: the first flag given, in the
/// order `--print`, `--print2`, `--fprint`, `--fprint2`, `--fprint3`,
/// `--fprint4`.
pub fn print_mode(print: bool, print2: bool, fprint: bool, fprint2: bool, fprint3: bool, fprint4: bool) -> (r: Option<
    PrintMode,
>)
    ensures
        r == (if print {
            Some(PrintMode::Print)
        } else if print2 {
            Some(PrintMode::Print2)
        } else if fprint {
            Some(PrintMode::FPrint)
        } else if fprint2 {
            Some(PrintMode::FPrint2)
        } else if fprint3 {
            Some(PrintMode::FPrint3)
        } else if fprint4 {
            Some(PrintMode::FPrint4)
        } else {
            None
        }),
{
    if print {
        Some(PrintMode::Print)
    } else if print2 {
        Some(PrintMode::Print2)
    } else if fprint {
        Some(PrintMode::FPrint)
    } else if fprint2 {
        Some(PrintMode::FPrint2)
    } else if fprint3 {
        Some(PrintMode::FPrint3)
    } else if fprint4 {
        Some(PrintMode::FPrint4)
    } else {
        None
    }
}

/// Lines joined with an empty line between them where `spaced`.
pub open spec fn joined(ls: Seq<Seq<char>>, spaced: bool) -> Seq<char>
    decreases ls.len(),
{
    if ls.len() == 0 {
        Seq::<char>::empty()
    } else if ls.len() == 1 {
        ls[0]
    } else {
        joined(ls.drop_last(), spaced) + (if spaced { "\n\n"@ } else { "\n"@ }) + ls.last()
    }
}

/// Joins lines with `\n`, or with `\n\n` where `spaced`.
pub fn join_spaced(v: &Vec<String>, spaced: bool) -> (r: String)
    ensures
        r@ == joined(views(v@), spaced),
{
    let mut r = String::new();
    let mut i: usize = 0;
    while i < v.len()
        invariant
            i <= v@.len(),
            r@ == joined(views(v@.subrange(0, i as int)), spaced),
        decreases v@.len() - i,
    {
        let ghost prev = views(v@.subrange(0, i as int));
        if i > 0 {
            push_char(&mut r, '\n');
            if spaced {
                push_char(&mut r, '\n');
            }
        }
        r.append(v[i].as_str());
        i = i + 1;
        proof {
            reveal_strlit("\n\n");
            reveal_strlit("\n");
            let cur = views(v@.subrange(0, i as int));
            assert(cur.drop_last() =~= prev);
            if i == 1 {
                assert(r@ =~= cur[0]);
            } else {
                assert(r@ =~= joined(prev, spaced) + (if spaced { "\n\n"@ } else { "\n"@ }) + cur.last());
            }
        }
    }
    assert(v@.subrange(0, i as int) =~= v@);
    r
}

/// The notes as the formatted print modes write them: every line after
/// the header, each with its own note number.
pub open spec fn fprint_notes(g: Globals, ls: Seq<Seq<char>>, indent: bool, width: nat) -> Seq<Seq<char>> {
    Seq::new(
        if ls.len() >= 1 { (ls.len() - 1) as nat } else { 0 },
        |k: int| formatted_note(g, (k + 1) as nat, ls[k + 1], false, 0, indent, width),
    )
}

/// Whether the notes numbered up to `count` fit a terminal of `width`
/// columns when formatted.
pub open spec fn fprint_fits(count: nat, width: nat) -> bool {
    forall|k: int| 1 <= k <= count ==> #[trigger] note_fits(k as nat, 0, width)
}

/// What a print mode writes for a notes text, for a terminal of `width`
/// columns; `None` where a formatted note does not fit.
pub open spec fn printed_text(g: Globals, notes: Seq<char>, mode: PrintMode, width: nat) -> Option<Seq<char>> {
    let ls = spec_lines(notes);
    let count: nat = if ls.len() >= 1 { (ls.len() - 1) as nat } else { 0 };
    match mode {
        PrintMode::Print => Some(joined(ls, false)),
        PrintMode::Print2 => Some(joined(ls, true)),
        _ => if fprint_fits(count, width) {
            let indent = mode == PrintMode::FPrint || mode == PrintMode::FPrint2;
            let spaced = mode == PrintMode::FPrint2 || mode == PrintMode::FPrint4;
            Some(joined(fprint_notes(g, ls, indent, width), spaced))
        } else {
            None
        },
    }
}

/// Writes the notes as a print mode asks (see `printed_text`).
pub fn print_text(g: &Globals, notes: &str, mode: PrintMode, width: usize) -> (r: Option<String>)
    ensures
        match r {
            Some(s) => printed_text(*g, notes@, mode, width as nat) == Some(s@),
            None => printed_text(*g, notes@, mode, width as nat) is None,
        },
{
    let ls = lines(notes);
    match mode {
        PrintMode::Print => {
            return Some(join_spaced(&ls, false));
        },
        PrintMode::Print2 => {
            return Some(join_spaced(&ls, true));
        },
        _ => {},
    }
    let indent = match mode {
        PrintMode::FPrint | PrintMode::FPrint2 => true,
        _ => false,
    };
    let spaced = match mode {
        PrintMode::FPrint2 | PrintMode::FPrint4 => true,
        _ => false,
    };
    let ghost lv = views(ls@);
    assert(lv.len() == ls@.len());
    let count: usize = if ls.len() >= 1 { ls.len() - 1 } else { 0 };
    let mut out: Vec<String> = Vec::new();
    let mut k: usize = 0;
    while k < count
        invariant
            k <= count,
            count == (if lv.len() >= 1 { (lv.len() - 1) as nat } else { 0 }),
            lv == views(ls@),
            lv == spec_lines(notes@),
            lv.len() == ls@.len(),
            mode != PrintMode::Print && mode != PrintMode::Print2,
            indent == (mode == PrintMode::FPrint || mode == PrintMode::FPrint2),
            forall|j: int| 1 <= j <= k ==> #[trigger] note_fits(j as nat, 0, width as nat),
            views(out@) =~= fprint_notes(*g, lv, indent, width as nat).subrange(0, k as int),
        decreases count - k,
    {
        let len = num_digits(k + 1);
        if width < 5 || width - 5 < len {
            assert(!note_fits((k + 1) as nat, 0, width as nat));
            assert(!fprint_fits(count as nat, width as nat));
            return None;
        }
        let ghost prev = views(out@);
        assert(k + 1 < ls@.len());
        let line = format_note(g, &(k + 1, ls[k + 1].clone()), false, 0, indent, width);
        out.push(line);
        assert(views(out@) =~= prev.push(line@));
        k = k + 1;
    }
    assert(views(out@) =~= fprint_notes(*g, lv, indent, width as nat));
    Some(join_spaced(&out, spaced))
}

} // verus!
