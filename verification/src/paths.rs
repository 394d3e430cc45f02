//! The path of the notes file: `~` and environment variables expanded with
//! the `shellexpand` crate, and the folder that holds the file.

use vstd::prelude::*;

use crate::globals::Globals;
use crate::screen::tilde_expanded;
use crate::text::contains_char;

verus! {

/// The characters held by an optional string.
pub open spec fn opt_chars(r: Option<String>) -> Option<Seq<char>> {
    match r {
        Some(s) => Some(s@),
        None => None,
    }
}

/// Expands a path as a shell would: `shellexpand::full`, which replaces
/// `$NAME` and `${NAME}` with the environment's values and then a leading
/// `~` (alone or before `/`) with the home folder. What comes back depends
/// on the environment. Claimed: a path with no `$` always expands, to
/// itself (where no home folder is known) or to its tilde expansion with
/// some home folder; `None` where a variable the path names cannot be read
/// (nothing more is claimed of paths with `$`).
#[verifier::external_body]
pub fn shell_expand(path: &str) -> (r: Option<String>)
    ensures
        !path@.contains('$') ==> r is Some,
        !path@.contains('$') ==> opt_chars(r) == Some(path@) || exists|h: Seq<char>|
            opt_chars(r) == Some(#[trigger] tilde_expanded(path@, h)),
{
    match shellexpand::full(path) {
        Ok(c) => Some(c.to_string()),
        Err(_) => None,
    }
}

/// Reads a leading `~` as the given home folder:
/// `shellexpand::tilde_with_context` with `home`. Claimed: the result is
/// the tilde expansion `tilde_expanded` (`~` alone or before `/` replaced
/// by `home`, any other path unchanged).
#[verifier::external_body]
pub(crate) fn expand_tilde(path: &str, home: &str) -> (r: String)
    ensures
        r@ == tilde_expanded(path@, home@),
{
    shellexpand::tilde_with_context(path, || Some(home)).to_string()
}

/// The path without its last part, as `std::path::Path::parent` gives it;
/// `None` for a path that ends in the root, and for the empty path.
pub uninterp spec fn path_parent(p: Seq<char>) -> Option<Seq<char>>;

/// The folder a path is in: `Path::parent` of std. Claimed: the result is
/// the named parent, and the empty path has none (as std documents).
#[verifier::external_body]
pub(crate) fn parent_of(p: &str) -> (r: Option<String>)
    ensures
        opt_chars(r) == path_parent(p@),
        p@.len() == 0 ==> r is None,
{
    std::path::Path::new(p).parent().map(|q| q.to_string_lossy().to_string())
}

/// The path of the notes file with `~` read as the home folder `home` and
/// environment variables expanded: for a path with no `$` this is its tilde
/// expansion, which is what the shell expansion gives where `home` is the
/// home folder; a path with `$` is expanded by `shell_expand` (`None` where
/// a variable it names cannot be read).
pub fn get_file_path(g: &Globals, home: &str) -> (r: Option<String>)
    ensures
        !g.path@.contains('$') ==> opt_chars(r) == Some(tilde_expanded(g.path@, home@)),
{
    if contains_char(g.path.as_str(), '$') {
        shell_expand(g.path.as_str())
    } else {
        Some(expand_tilde(g.path.as_str(), home))
    }
}

/// The folder that holds the notes file (see `get_file_path`): `None`
/// where the path cannot be expanded or has no folder.
pub fn get_file_parent_path(g: &Globals, home: &str) -> (r: Option<String>)
    ensures
        !g.path@.contains('$') ==> opt_chars(r) == path_parent(tilde_expanded(g.path@, home@)),
{
    match get_file_path(g, home) {
        Some(p) => parent_of(p.as_str()),
        None => None,
    }
}

} // verus!
