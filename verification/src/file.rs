//! Changes to the lines of the notes and saving them.

use vstd::prelude::*;

use crate::encryption::{encrypt_text, seal_error, seals, utf8, CryptoError};
use crate::globals::{clone_strings, Globals};
use crate::notes::{moved_index, notes_consistent, update_notes_statics};
use crate::text::{join_lines, lines, spec_join, spec_lines, spec_trim, str_eq, trim, views};
use crate::notes::{max_page, get_max_page_number, Screen, Step};

verus! {

/// Whether a save of `text` from the state `g` has to succeed: the text is
/// not empty, and either nothing is encrypted or a known key derivation has
/// a password, with password and text within what the hasher and the
/// cipher take. Only the operating system's random source can still fail
/// it.
pub open spec fn save_owed(g: Globals, text: Seq<char>) -> bool {
    &&& text.len() > 0
    &&& (g.derivation == 0 || ((g.derivation == 1 || g.derivation == 2) && g.password@.len() > 0 && utf8(
        g.password@,
    ).len() <= 0xFFFF_FFFF && utf8(text).len() < 64 * 0xFFFF_FFFF))
}

/// What a save did: on success the notes text became `text` (with its
/// lines and count), the text it replaced is kept for an undo, and `b`
/// seals it; on failure nothing changed. Where the save is owed (see
/// `save_owed`) it succeeds, unless the random source failed.
pub open spec fn saved(old: Globals, new: Globals, r: Result<Vec<u8>, CryptoError>, text: Seq<char>) -> bool {
    &&& save_owed(old, text) ==> (r is Ok || r == Err::<Vec<u8>, CryptoError>(CryptoError::Random))
    &&& match r {
        Ok(b) => {
            &&& new == (Globals {
                notes: new.notes,
                notes_vec: new.notes_vec,
                notes_length: new.notes_length,
                prev_notes: old.notes,
                ..old
            })
            &&& new.notes@ == text
            &&& notes_consistent(new)
            &&& seals(old, b@, text)
        },
        Err(e) => {
            &&& new == old
            &&& if text.len() == 0 {
                e == CryptoError::EmptyNotes
            } else {
                seal_error(old, e)
            }
        },
    }
}

/// Seals a new notes text and takes it as the notes; returns the bytes to
/// write to the file.
pub fn update_file(g: &mut Globals, text: String) -> (r: Result<Vec<u8>, CryptoError>)
    ensures
        saved(*old(g), *final(g), r, text@),
{
    if text.as_str().is_empty() {
        return Err(CryptoError::EmptyNotes);
    }
    let encrypted = encrypt_text(g, text.as_str());
    match encrypted {
        Ok(b) => {
            g.prev_notes = g.notes.clone();
            update_notes_statics(g, text);
            Ok(b)
        },
        Err(e) => Err(e),
    }
}

/// Line `n` of the notes text, or nothing past the last note.
pub fn get_line(g: &Globals, n: usize) -> (r: String)
    requires
        notes_consistent(*g),
    ensures
        n > g.notes_length ==> r@.len() == 0,
        n <= g.notes_length ==> r == g.notes_vec@[n as int],
{
    if n > g.notes_length {
        return String::new();
    }
    g.notes_vec[n].clone()
}

/// The header, the first line of the notes text.
pub fn get_header(g: &Globals) -> (r: String)
    requires
        g.notes_vec@.len() >= 1,
    ensures
        r == g.notes_vec@[0],
{
    g.notes_vec[0].clone()
}

/// Replaces line `n` of the notes and saves them.
pub fn replace_line(g: &mut Globals, n: usize, new_text: String) -> (r: Result<Vec<u8>, CryptoError>)
    requires
        n < old(g).notes_vec@.len(),
    ensures
        saved(*old(g), *final(g), r, spec_join(views(old(g).notes_vec@).update(n as int, new_text@))),
{
    let mut lines = clone_strings(&g.notes_vec);
    lines.set(n, new_text);
    assert(views(lines@) =~= views(old(g).notes_vec@).update(n as int, lines@[n as int]@));
    let text = join_lines(&lines);
    update_file(g, text)
}

/// Swaps lines `n1` and `n2` of the notes and saves them.
pub fn swap_lines(g: &mut Globals, n1: usize, n2: usize) -> (r: Result<Vec<u8>, CryptoError>)
    requires
        n1 < old(g).notes_vec@.len(),
        n2 < old(g).notes_vec@.len(),
    ensures
        saved(
            *old(g),
            *final(g),
            r,
            spec_join(
                views(old(g).notes_vec@).update(n1 as int, old(g).notes_vec@[n2 as int]@).update(
                    n2 as int,
                    old(g).notes_vec@[n1 as int]@,
                ),
            ),
        ),
{
    let mut lines = clone_strings(&g.notes_vec);
    let a = lines[n1].clone();
    let b = lines[n2].clone();
    lines.set(n1, b);
    lines.set(n2, a);
    let ghost v = views(old(g).notes_vec@);
    assert(views(lines@) =~= v.update(n1 as int, v[n2 as int]).update(n2 as int, v[n1 as int]));
    let text = join_lines(&lines);
    update_file(g, text)
}


/// Where the block `n1..=n2` goes when it is moved to `dest`: before the
/// line at `dest` when moving towards the start, after it otherwise.
pub open spec fn move_target(n1: int, n2: int, dest: int) -> int {
    if dest < n1 {
        dest
    } else {
        dest - (n2 - n1 + 1) + 1
    }
}

/// Lines `n1` to `n2` moved to `dest`.
pub open spec fn spec_move<T>(ls: Seq<T>, n1: int, n2: int, dest: int) -> Seq<T> {
    let moved = ls.subrange(n1, n2 + 1);
    let rest = ls.subrange(0, n1) + ls.subrange(n2 + 1, ls.len() as int);
    let nto = move_target(n1, n2, dest);
    rest.subrange(0, nto) + moved + rest.subrange(nto, rest.len() as int)
}

/// The moves `move_notes` makes: a block of existing lines moved to a line
/// outside it.
pub open spec fn valid_move(len: int, n1: int, n2: int, dest: int) -> bool {
    &&& 0 <= n1 <= n2 < len
    &&& 0 <= dest < len
    &&& (dest < n1 || dest > n2)
}

/// Moving a block keeps every line, and the line that was at `i` is at
/// `moved_index(i, ..)` afterwards.
pub proof fn lemma_move_keeps_lines<T>(ls: Seq<T>, n1: int, n2: int, dest: int, i: int)
    requires
        valid_move(ls.len() as int, n1, n2, dest),
        0 <= i < ls.len(),
    ensures
        spec_move(ls, n1, n2, dest).len() == ls.len(),
        0 <= moved_index(i as nat, n1 as nat, n2 as nat, dest as nat) < ls.len(),
        spec_move(ls, n1, n2, dest)[moved_index(i as nat, n1 as nat, n2 as nat, dest as nat) as int]
            == ls[i],
{
    let moved = ls.subrange(n1, n2 + 1);
    let rest = ls.subrange(0, n1) + ls.subrange(n2 + 1, ls.len() as int);
    let nto = move_target(n1, n2, dest);
    let k = n2 - n1 + 1;
    let r = spec_move(ls, n1, n2, dest);
    assert(rest.len() == ls.len() - k);
    assert(0 <= nto <= rest.len());
    assert(r.len() == ls.len());
    let j = moved_index(i as nat, n1 as nat, n2 as nat, dest as nat) as int;
    // r[x] for x < nto is rest[x]; for nto <= x < nto + k it is moved[x - nto];
    // past that it is rest[x - k].
    assert(forall|x: int| 0 <= x < nto ==> r[x] == rest[x]);
    assert(forall|x: int| nto <= x < nto + k ==> r[x] == moved[x - nto]);
    assert(forall|x: int| nto + k <= x < r.len() ==> r[x] == rest[x - k]);
    assert(forall|x: int| 0 <= x < n1 ==> rest[x] == ls[x]);
    assert(forall|x: int| n1 <= x < rest.len() ==> rest[x] == ls[x + k]);
    if n1 <= i <= n2 {
        assert(j == nto + (i - n1));
        assert(r[j] == moved[i - n1]);
    } else if i < n1 {
        if dest < n1 {
            if dest == i {
                assert(j == i + k);
            } else if dest < i {
                assert(j == i + k);
            } else {
                assert(j == i);
            }
        } else {
            assert(j == i);
        }
    } else {
        if dest > n2 {
            if dest == i {
                assert(j == i - k);
            } else if dest > i {
                assert(j == i - k);
            } else {
                assert(j == i);
            }
        } else {
            assert(j == i);
        }
    }
}

/// Appends `src[lo..hi]` to `dst`.
pub fn push_lines(dst: &mut Vec<String>, src: &Vec<String>, lo: usize, hi: usize)
    requires
        lo <= hi <= src@.len(),
    ensures
        final(dst)@ == old(dst)@ + src@.subrange(lo as int, hi as int),
{
    let mut i = lo;
    while i < hi
        invariant
            lo <= i <= hi <= src@.len(),
            dst@ == old(dst)@ + src@.subrange(lo as int, i as int),
        decreases hi - i,
    {
        dst.push(src[i].clone());
        assert(src@.subrange(lo as int, i + 1) =~= src@.subrange(lo as int, i as int).push(src@[i as int]));
        i = i + 1;
    }
}

/// Moves lines `n1` to `n2` to `dest` (see `spec_move`) and saves them.
pub fn move_lines(g: &mut Globals, n1: usize, n2: usize, dest: usize) -> (r: Result<Vec<u8>, CryptoError>)
    requires
        valid_move(old(g).notes_vec@.len() as int, n1 as int, n2 as int, dest as int),
    ensures
        saved(*old(g), *final(g), r, spec_join(spec_move(views(old(g).notes_vec@), n1 as int, n2 as int, dest as int))),
{
    let lines = &g.notes_vec;
    let len = lines.len();
    assert(n2 < len);
    let mut rest: Vec<String> = Vec::new();
    push_lines(&mut rest, lines, 0, n1);
    push_lines(&mut rest, lines, n2 + 1, lines.len());
    let nto = if dest < n1 { dest } else { dest - (n2 - n1 + 1) + 1 };
    let mut joined: Vec<String> = Vec::new();
    push_lines(&mut joined, &rest, 0, nto);
    push_lines(&mut joined, lines, n1, n2 + 1);
    push_lines(&mut joined, &rest, nto, rest.len());
    proof {
        let ls = old(g).notes_vec@;
        assert(rest@ =~= ls.subrange(0, n1 as int) + ls.subrange(n2 + 1, ls.len() as int));
        assert(joined@ =~= spec_move(ls, n1 as int, n2 as int, dest as int));
        assert(views(joined@) =~= spec_move(views(ls), n1 as int, n2 as int, dest as int));
    }
    let text = join_lines(&joined);
    update_file(g, text)
}

/// The lines kept when the notes numbered in `numbers` are deleted: the
/// header and every line whose number is not listed.
pub open spec fn kept_lines(ls: Seq<Seq<char>>, numbers: Seq<usize>) -> Seq<Seq<char>>
    decreases ls.len(),
{
    if ls.len() == 0 {
        ls
    } else {
        let prev = kept_lines(ls.drop_last(), numbers);
        let i = ls.len() - 1;
        if i == 0 || !numbers.contains(i as usize) {
            prev.push(ls.last())
        } else {
            prev
        }
    }
}

/// Whether `n` is in `numbers`.
pub fn contains_number(numbers: &Vec<usize>, n: usize) -> (r: bool)
    ensures
        r == numbers@.contains(n),
{
    let mut i: usize = 0;
    while i < numbers.len()
        invariant
            i <= numbers@.len(),
            forall|j: int| 0 <= j < i ==> numbers@[j] != n,
        decreases numbers@.len() - i,
    {
        if numbers[i] == n {
            assert(numbers@[i as int] == n);
            return true;
        }
        i = i + 1;
    }
    false
}

/// Deletes the notes numbered in `numbers` (the header stays) and saves.
pub fn delete_lines(g: &mut Globals, numbers: Vec<usize>) -> (r: Result<Vec<u8>, CryptoError>)
    ensures
        saved(*old(g), *final(g), r, spec_join(kept_lines(views(old(g).notes_vec@), numbers@))),
{
    let mut new_lines: Vec<String> = Vec::new();
    let mut i: usize = 0;
    while i < g.notes_vec.len()
        invariant
            i <= g.notes_vec@.len(),
            g == old(g),
            views(new_lines@) == kept_lines(views(g.notes_vec@.subrange(0, i as int)), numbers@),
        decreases g.notes_vec@.len() - i,
    {
        let ghost prev = views(new_lines@);
        let ghost pre = views(g.notes_vec@.subrange(0, i + 1));
        assert(pre.drop_last() =~= views(g.notes_vec@.subrange(0, i as int)));
        if i == 0 || !contains_number(&numbers, i) {
            new_lines.push(g.notes_vec[i].clone());
            assert(views(new_lines@) =~= prev.push(g.notes_vec@[i as int]@));
        }
        i = i + 1;
    }
    assert(g.notes_vec@.subrange(0, i as int) =~= g.notes_vec@);
    let text = join_lines(&new_lines);
    update_file(g, text)
}


/// The lines of a text that are not blank.
pub open spec fn nonblank(ls: Seq<Seq<char>>) -> Seq<Seq<char>>
    decreases ls.len(),
{
    if ls.len() == 0 {
        ls
    } else {
        let prev = nonblank(ls.drop_last());
        if spec_trim(ls.last()).len() > 0 {
            prev.push(ls.last())
        } else {
            prev
        }
    }
}

/// The non-blank lines of `s`.
pub fn nonblank_lines(s: &str) -> (r: Vec<String>)
    ensures
        views(r@) == nonblank(spec_lines(s@)),
{
    let all = lines(s);
    let mut r: Vec<String> = Vec::new();
    let mut i: usize = 0;
    while i < all.len()
        invariant
            i <= all@.len(),
            views(r@) == nonblank(views(all@.subrange(0, i as int))),
        decreases all@.len() - i,
    {
        let ghost prev = views(r@);
        assert(views(all@.subrange(0, i + 1)).drop_last() =~= views(all@.subrange(0, i as int)));
        let t = trim(all[i].as_str());
        if !t.as_str().is_empty() {
            r.push(all[i].clone());
            assert(views(r@) =~= prev.push(all@[i as int]@));
        }
        i = i + 1;
    }
    assert(all@.subrange(0, i as int) =~= all@);
    r
}

/// How the lines of a source text join the notes: the new lines, whether
/// the last-edited note is cleared, and whether the first page (rather
/// than the last) is shown. Without notes the source fills them; otherwise
/// `r` (confirmed) replaces them, `a` appends, `p` prepends.
pub open spec fn source_plan(g: Globals, choice: Seq<char>, confirmed: bool) -> Option<(Seq<Seq<char>>, bool, bool)> {
    let notes = views(g.notes_vec@);
    let src = nonblank(spec_lines(g.source@));
    if notes.len() == 1 {
        Some((seq![notes[0]] + src, false, false))
    } else if choice == "r"@ {
        if confirmed {
            Some((seq![notes[0]] + src, true, false))
        } else {
            None
        }
    } else if choice == "a"@ {
        Some((notes + src, false, false))
    } else if choice == "p"@ {
        Some((seq![notes[0]] + src + notes.skip(1), true, true))
    } else {
        None
    }
}

/// Whether a source is waiting and the user must choose how to add it.
pub fn source_needs_choice(g: &Globals) -> (r: bool)
    ensures
        r == (g.source@.len() > 0 && g.notes_vec@.len() != 1),
{
    !g.source.as_str().is_empty() && g.notes_vec.len() != 1
}

/// Adds the lines of the waiting source text to the notes (see
/// `source_plan`), then forgets the source.
pub fn handle_source(g: &mut Globals, choice: &str, confirmed: bool) -> (r: Step)
    requires
        old(g).notes_vec@.len() >= 1,
    ensures
        old(g).source@.len() == 0 ==> *final(g) == *old(g) && r.save is None && r.screen is Stay,
        old(g).source@.len() > 0 ==> final(g).source@.len() == 0 && match source_plan(*old(g), choice@, confirmed) {
            None => *final(g) == (Globals { source: final(g).source, ..*old(g) }) && r.save is None && r.screen is Stay,
            Some((ls, clear, first)) => (r.save matches Some(res) && saved(
                *old(g),
                Globals { source: old(g).source, last_edit: old(g).last_edit, ..*final(g) },
                res,
                spec_join(ls),
            ) && final(g).last_edit == (if clear { 0 } else { old(g).last_edit }) && (old(g).started ==> (
                r.screen matches Screen::Page(p) && (first ==> p == 1) && (!first && final(g).page_size > 0
                    ==> p == max_page(*final(g)))
            )) && (!old(g).started ==> r.screen is Stay)),
        },
{
    if g.source.as_str().is_empty() {
        return Step { save: None, screen: Screen::Stay };
    }
    let started = g.started;
    let src = nonblank_lines(g.source.as_str());
    let notes = clone_strings(&g.notes_vec);
    let ghost nv = views(notes@);
    let plan: Option<(Vec<String>, bool, bool)> = if notes.len() == 1 {
        let mut ls: Vec<String> = Vec::new();
        ls.push(notes[0].clone());
        push_lines(&mut ls, &src, 0, src.len());
        assert(views(ls@) =~= seq![nv[0]] + views(src@));
        Some((ls, false, false))
    } else if str_eq(choice, "r") {
        if confirmed {
            let mut ls: Vec<String> = Vec::new();
            ls.push(notes[0].clone());
            push_lines(&mut ls, &src, 0, src.len());
            assert(views(ls@) =~= seq![nv[0]] + views(src@));
            Some((ls, true, false))
        } else {
            None
        }
    } else if str_eq(choice, "a") {
        let mut ls: Vec<String> = Vec::new();
        push_lines(&mut ls, &notes, 0, notes.len());
        push_lines(&mut ls, &src, 0, src.len());
        assert(views(ls@) =~= nv + views(src@));
        Some((ls, false, false))
    } else if str_eq(choice, "p") {
        let mut ls: Vec<String> = Vec::new();
        ls.push(notes[0].clone());
        push_lines(&mut ls, &src, 0, src.len());
        push_lines(&mut ls, &notes, 1, notes.len());
        assert(views(ls@) =~= seq![nv[0]] + views(src@) + nv.skip(1));
        Some((ls, true, true))
    } else {
        None
    };
    let step = match plan {
        None => Step { save: None, screen: Screen::Stay },
        Some((ls, clear, first)) => {
            let text = join_lines(&ls);
            let save = update_file(g, text);
            if clear {
                g.last_edit = 0;
            }
            let screen = if !started {
                Screen::Stay
            } else if first {
                Screen::Page(1)
            } else if g.page_size > 0 {
                Screen::Page(get_max_page_number(g))
            } else {
                Screen::Page(1)
            };
            Step { save: Some(save), screen }
        },
    };
    g.source = String::new();
    step
}

} // verus!
